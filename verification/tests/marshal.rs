use lancedb_bridge::codec::words_from_le_bytes;
use lancedb_bridge::codec::words_to_le_bytes;
use lancedb_bridge::errors::BridgeError;
use lancedb_bridge::insert::decode_row_set;
use lancedb_bridge::kinds::lancedb_field_data_type_t;
use lancedb_bridge::kinds::lancedb_field_type_t;
use lancedb_bridge::kinds::EngineType;
use lancedb_bridge::payload::BatchColumn;
use lancedb_bridge::payload::ColumnBatch;
use lancedb_bridge::payload::ColumnPayload;
use lancedb_bridge::payload::ColumnValues;
use lancedb_bridge::payload::PayloadData;
use lancedb_bridge::payload::RowSetPayload;
use lancedb_bridge::schema::build_engine_schema;
use lancedb_bridge::schema::EngineField;
use lancedb_bridge::schema::EngineSchema;
use lancedb_bridge::schema::FieldDescriptor;
use lancedb_bridge::schema::SchemaDescriptor;
use lancedb_bridge::search::build_search_request;
use lancedb_bridge::search::encode_batch;
use lancedb_bridge::table::build_create_table_plan;

fn f32_bytes(values: &[f32]) -> Vec<u8> {
    let mut out = Vec::new();
    for v in values {
        out.extend_from_slice(&v.to_le_bytes());
    }
    out
}

fn scalar_field(name: &str, kind: lancedb_field_data_type_t) -> FieldDescriptor {
    FieldDescriptor {
        name: name.to_string(),
        data_type: kind,
        field_type: lancedb_field_type_t::LanceDBFieldTypeScalar,
        create_index: false,
        dimension: 1,
        nullable: false,
    }
}

fn vector_field(name: &str, kind: lancedb_field_data_type_t, dim: i32) -> FieldDescriptor {
    FieldDescriptor {
        name: name.to_string(),
        data_type: kind,
        field_type: lancedb_field_type_t::LanceDBFieldTypeVector,
        create_index: false,
        dimension: dim,
        nullable: true,
    }
}

#[test]
fn words_decode_little_endian() {
    let buf = vec![0x01u8, 0x02, 0x03, 0x04];
    assert_eq!(words_from_le_bytes(&buf, 4, 1), vec![1, 2, 3, 4]);
    assert_eq!(words_from_le_bytes(&buf, 2, 2), vec![0x0201, 0x0403]);
    assert_eq!(words_from_le_bytes(&buf, 1, 4), vec![0x04030201]);
    let buf8 = vec![0x11u8, 0x22, 0x33, 0x44, 0x55, 0x66, 0x77, 0x88];
    assert_eq!(words_from_le_bytes(&buf8, 1, 8), vec![0x8877665544332211]);
}

#[test]
fn words_encode_little_endian() {
    assert_eq!(words_to_le_bytes(&vec![0x0201, 0x0403], 2), vec![1, 2, 3, 4]);
    assert_eq!(
        words_to_le_bytes(&vec![0x8877665544332211], 8),
        vec![0x11, 0x22, 0x33, 0x44, 0x55, 0x66, 0x77, 0x88]
    );
}

#[test]
fn word_codec_round_trips_every_width() {
    let buf: Vec<u8> = (0u8..=255).collect();
    for w in [1usize, 2, 4, 8] {
        let words = words_from_le_bytes(&buf, 256 / w, w);
        let back = words_to_le_bytes(&words, w);
        assert_eq!(back, buf);
    }
}

#[test]
fn schema_builder_translates_every_field() {
    let schema = SchemaDescriptor {
        fields: vec![
            scalar_field("id", lancedb_field_data_type_t::LanceDBFieldTypeInt32),
            scalar_field("when", lancedb_field_data_type_t::LanceDBFieldTypeTimestamp),
            scalar_field("note", lancedb_field_data_type_t::LanceDBFieldTypeString),
            vector_field("vec", lancedb_field_data_type_t::LanceDBFieldTypeFloat32, 3),
        ],
    };
    let built = build_engine_schema(&schema).expect("valid schema builds");
    assert_eq!(built.fields.len(), 4);
    assert_eq!(built.fields[0].name, "id");
    assert_eq!(built.fields[0].data_type, EngineType::Int32);
    assert!(!built.fields[0].nullable);
    assert_eq!(built.fields[1].data_type, EngineType::TimestampMillisecond);
    assert_eq!(built.fields[2].data_type, EngineType::Utf8);
    assert_eq!(
        built.fields[3].data_type,
        EngineType::FixedSizeList(lancedb_field_data_type_t::LanceDBFieldTypeFloat32, 3)
    );
    assert!(built.fields[3].nullable);
}

#[test]
fn schema_builder_rejects_duplicate_names() {
    let schema = SchemaDescriptor {
        fields: vec![
            scalar_field("id", lancedb_field_data_type_t::LanceDBFieldTypeInt32),
            scalar_field("id", lancedb_field_data_type_t::LanceDBFieldTypeInt64),
        ],
    };
    assert!(matches!(build_engine_schema(&schema), Err(BridgeError::InvalidArgument)));
}

#[test]
fn schema_builder_rejects_text_vector() {
    let schema = SchemaDescriptor {
        fields: vec![vector_field("v", lancedb_field_data_type_t::LanceDBFieldTypeString, 4)],
    };
    assert!(matches!(build_engine_schema(&schema), Err(BridgeError::UnsupportedType)));
}

#[test]
fn schema_builder_rejects_zero_dimension() {
    let schema = SchemaDescriptor {
        fields: vec![vector_field("v", lancedb_field_data_type_t::LanceDBFieldTypeFloat64, 0)],
    };
    assert!(matches!(build_engine_schema(&schema), Err(BridgeError::InvalidArgument)));
}

fn int32_column(name: &str, values: &[i32]) -> ColumnPayload {
    let mut raw = Vec::new();
    for v in values {
        raw.extend_from_slice(&v.to_le_bytes());
    }
    ColumnPayload {
        name: name.to_string(),
        data_type: lancedb_field_data_type_t::LanceDBFieldTypeInt32,
        field_type: lancedb_field_type_t::LanceDBFieldTypeScalar,
        element_count: values.len(),
        dimension: 1,
        data: PayloadData::Raw(raw),
    }
}

fn f32_vector_column(name: &str, rows: usize, dim: usize, flat: &[f32]) -> ColumnPayload {
    ColumnPayload {
        name: name.to_string(),
        data_type: lancedb_field_data_type_t::LanceDBFieldTypeFloat32,
        field_type: lancedb_field_type_t::LanceDBFieldTypeVector,
        element_count: rows,
        dimension: dim,
        data: PayloadData::Raw(f32_bytes(flat)),
    }
}

fn two_column_schema(dim: i32) -> EngineSchema {
    EngineSchema {
        fields: vec![
            EngineField {
                name: "id".to_string(),
                data_type: EngineType::Int32,
                nullable: false,
            },
            EngineField {
                name: "vec".to_string(),
                data_type: EngineType::FixedSizeList(
                    lancedb_field_data_type_t::LanceDBFieldTypeFloat32,
                    dim,
                ),
                nullable: true,
            },
        ],
    }
}

#[test]
fn insert_decodes_matching_payload() {
    let schema = two_column_schema(4);
    let payload = RowSetPayload {
        columns: vec![
            int32_column("id", &[0, 1]),
            f32_vector_column("vec", 2, 4, &[1.0, 0.0, 0.0, 0.0, 0.0, 1.0, 0.0, 0.0]),
        ],
    };
    let batch = decode_row_set(payload, &schema).expect("well-formed payload decodes");
    assert_eq!(batch.columns.len(), 2);
    assert_eq!(batch.columns[0].row_count, 2);
    match &batch.columns[0].values {
        ColumnValues::Words(ws) => assert_eq!(ws, &vec![0u64, 1u64]),
        _ => panic!("id column decodes to words"),
    }
    match &batch.columns[1].values {
        ColumnValues::Words(ws) => {
            assert_eq!(ws.len(), 8);
            assert_eq!(ws[0], 1.0f32.to_bits() as u64);
            assert_eq!(ws[1], 0.0f32.to_bits() as u64);
            assert_eq!(ws[5], 1.0f32.to_bits() as u64);
        }
        _ => panic!("vector column decodes to words"),
    }
}

#[test]
fn insert_rejects_column_count_mismatch() {
    // one payload column against a two-column schema: a schema mismatch,
    // never a silent truncation or padding
    let schema = two_column_schema(4);
    let payload = RowSetPayload { columns: vec![int32_column("id", &[0, 1])] };
    assert!(matches!(
        decode_row_set(payload, &schema),
        Err(BridgeError::SchemaMismatch)
    ));
}

#[test]
fn insert_rejects_wrong_kind() {
    let schema = two_column_schema(4);
    let mut wrong = int32_column("id", &[0, 1]);
    wrong.data_type = lancedb_field_data_type_t::LanceDBFieldTypeInt64;
    let payload = RowSetPayload {
        columns: vec![
            wrong,
            f32_vector_column("vec", 2, 4, &[0.0; 8]),
        ],
    };
    assert!(matches!(
        decode_row_set(payload, &schema),
        Err(BridgeError::SchemaMismatch)
    ));
}

#[test]
fn insert_rejects_wrong_buffer_size() {
    let schema = two_column_schema(4);
    let mut short = int32_column("id", &[0, 1]);
    if let PayloadData::Raw(ref mut raw) = short.data {
        raw.pop();
    }
    let payload = RowSetPayload {
        columns: vec![
            short,
            f32_vector_column("vec", 2, 4, &[0.0; 8]),
        ],
    };
    assert!(matches!(
        decode_row_set(payload, &schema),
        Err(BridgeError::InvalidArgument)
    ));
}

#[test]
fn insert_rejects_unequal_row_counts() {
    let schema = two_column_schema(4);
    let payload = RowSetPayload {
        columns: vec![
            int32_column("id", &[0, 1, 2]),
            f32_vector_column("vec", 2, 4, &[0.0; 8]),
        ],
    };
    assert!(matches!(
        decode_row_set(payload, &schema),
        Err(BridgeError::InvalidArgument)
    ));
}

#[test]
fn insert_handles_text_and_blob_columns() {
    let schema = EngineSchema {
        fields: vec![
            EngineField {
                name: "note".to_string(),
                data_type: EngineType::Utf8,
                nullable: false,
            },
            EngineField {
                name: "raw".to_string(),
                data_type: EngineType::Binary,
                nullable: false,
            },
        ],
    };
    let payload = RowSetPayload {
        columns: vec![
            ColumnPayload {
                name: "note".to_string(),
                data_type: lancedb_field_data_type_t::LanceDBFieldTypeString,
                field_type: lancedb_field_type_t::LanceDBFieldTypeScalar,
                element_count: 2,
                dimension: 1,
                data: PayloadData::Texts(vec!["alpha".to_string(), "beta".to_string()]),
            },
            ColumnPayload {
                name: "raw".to_string(),
                data_type: lancedb_field_data_type_t::LanceDBFieldTypeBlob,
                field_type: lancedb_field_type_t::LanceDBFieldTypeScalar,
                element_count: 2,
                dimension: 1,
                data: PayloadData::Blobs(vec![vec![1, 2, 3], vec![]]),
            },
        ],
    };
    let batch = decode_row_set(payload, &schema).expect("text and blob columns decode");
    match &batch.columns[0].values {
        ColumnValues::Texts(ts) => assert_eq!(ts, &vec!["alpha".to_string(), "beta".to_string()]),
        _ => panic!("text column decodes to texts"),
    }
    match &batch.columns[1].values {
        ColumnValues::Blobs(bs) => assert_eq!(bs, &vec![vec![1u8, 2, 3], vec![]]),
        _ => panic!("blob column decodes to blobs"),
    }
}

#[test]
fn search_request_carries_exact_query_bits() {
    let schema = two_column_schema(4);
    let query = f32_bytes(&[1.0, 0.0, 0.0, 0.0]);
    let req = build_search_request(&schema, &"vec".to_string(), &query, 4)
        .expect("float32 vector column is searchable");
    assert_eq!(req.column, "vec");
    assert_eq!(
        req.element_kind,
        lancedb_field_data_type_t::LanceDBFieldTypeFloat32
    );
    assert_eq!(req.dimension, 4);
    assert_eq!(req.query_words.len(), 4);
    assert_eq!(req.query_words[0], 1.0f32.to_bits() as u64);
    assert_eq!(req.query_words[1], 0.0f32.to_bits() as u64);
}

#[test]
fn searching_scalar_column_fails_with_unsupported_type() {
    let schema = two_column_schema(4);
    let query = f32_bytes(&[1.0, 0.0, 0.0, 0.0]);
    let r = build_search_request(&schema, &"id".to_string(), &query, 4);
    assert!(matches!(r, Err(BridgeError::UnsupportedType)));
}

#[test]
fn searching_non_float_vector_fails_with_unsupported_type() {
    let schema = EngineSchema {
        fields: vec![EngineField {
            name: "v".to_string(),
            data_type: EngineType::FixedSizeList(
                lancedb_field_data_type_t::LanceDBFieldTypeInt32,
                4,
            ),
            nullable: true,
        }],
    };
    let query = vec![0u8; 16];
    let r = build_search_request(&schema, &"v".to_string(), &query, 4);
    assert!(matches!(r, Err(BridgeError::UnsupportedType)));
}

#[test]
fn searching_missing_column_fails_with_column_not_found() {
    let schema = two_column_schema(4);
    let r = build_search_request(&schema, &"nope".to_string(), &vec![0u8; 16], 4);
    assert!(matches!(r, Err(BridgeError::ColumnNotFound)));
}

#[test]
fn search_rejects_wrong_query_length() {
    let schema = two_column_schema(4);
    let r = build_search_request(&schema, &"vec".to_string(), &vec![0u8; 15], 4);
    assert!(matches!(r, Err(BridgeError::InvalidArgument)));
}

#[test]
fn float64_query_uses_eight_byte_elements() {
    let schema = EngineSchema {
        fields: vec![EngineField {
            name: "v".to_string(),
            data_type: EngineType::FixedSizeList(
                lancedb_field_data_type_t::LanceDBFieldTypeFloat64,
                2,
            ),
            nullable: true,
        }],
    };
    let mut query = Vec::new();
    query.extend_from_slice(&0.5f64.to_le_bytes());
    query.extend_from_slice(&(-2.0f64).to_le_bytes());
    let req = build_search_request(&schema, &"v".to_string(), &query, 2).expect("f64 searchable");
    assert_eq!(req.query_words[0], 0.5f64.to_bits());
    assert_eq!(req.query_words[1], (-2.0f64).to_bits());
}

#[test]
fn round_trip_preserves_every_buffer_bit_for_bit() {
    // insert-side decode followed by search-side encode returns the very
    // bytes, for an integer, a float vector, a text and a blob column
    let schema = EngineSchema {
        fields: vec![
            EngineField {
                name: "id".to_string(),
                data_type: EngineType::Int32,
                nullable: false,
            },
            EngineField {
                name: "vec".to_string(),
                data_type: EngineType::FixedSizeList(
                    lancedb_field_data_type_t::LanceDBFieldTypeFloat32,
                    2,
                ),
                nullable: true,
            },
            EngineField {
                name: "note".to_string(),
                data_type: EngineType::Utf8,
                nullable: false,
            },
            EngineField {
                name: "raw".to_string(),
                data_type: EngineType::Binary,
                nullable: false,
            },
        ],
    };
    let id_raw: Vec<u8> = [-5i32, 7i32].iter().flat_map(|v| v.to_le_bytes()).collect();
    let vec_raw = f32_bytes(&[0.25, -1.5, 3.75, f32::NAN]);
    let payload = RowSetPayload {
        columns: vec![
            ColumnPayload {
                name: "id".to_string(),
                data_type: lancedb_field_data_type_t::LanceDBFieldTypeInt32,
                field_type: lancedb_field_type_t::LanceDBFieldTypeScalar,
                element_count: 2,
                dimension: 1,
                data: PayloadData::Raw(id_raw.clone()),
            },
            ColumnPayload {
                name: "vec".to_string(),
                data_type: lancedb_field_data_type_t::LanceDBFieldTypeFloat32,
                field_type: lancedb_field_type_t::LanceDBFieldTypeVector,
                element_count: 2,
                dimension: 2,
                data: PayloadData::Raw(vec_raw.clone()),
            },
            ColumnPayload {
                name: "note".to_string(),
                data_type: lancedb_field_data_type_t::LanceDBFieldTypeString,
                field_type: lancedb_field_type_t::LanceDBFieldTypeScalar,
                element_count: 2,
                dimension: 1,
                data: PayloadData::Texts(vec!["a".to_string(), "longer".to_string()]),
            },
            ColumnPayload {
                name: "raw".to_string(),
                data_type: lancedb_field_data_type_t::LanceDBFieldTypeBlob,
                field_type: lancedb_field_type_t::LanceDBFieldTypeScalar,
                element_count: 2,
                dimension: 1,
                data: PayloadData::Blobs(vec![vec![0, 255], vec![128]]),
            },
        ],
    };
    let batch = decode_row_set(payload, &schema).expect("decodes");
    let back = encode_batch(batch).expect("encodes");
    assert_eq!(back.columns.len(), 4);
    match &back.columns[0].data {
        PayloadData::Raw(raw) => assert_eq!(raw, &id_raw),
        _ => panic!("id column re-encodes to raw bytes"),
    }
    match &back.columns[1].data {
        PayloadData::Raw(raw) => assert_eq!(raw, &vec_raw),
        _ => panic!("vector column re-encodes to raw bytes"),
    }
    match &back.columns[2].data {
        PayloadData::Texts(ts) => assert_eq!(ts, &vec!["a".to_string(), "longer".to_string()]),
        _ => panic!("text column re-encodes to texts"),
    }
    match &back.columns[3].data {
        PayloadData::Blobs(bs) => assert_eq!(bs, &vec![vec![0u8, 255], vec![128]]),
        _ => panic!("blob column re-encodes to blobs"),
    }
}

#[test]
fn round_trip_is_exact_for_every_fixed_kind() {
    // one column per fixed-width kind, three distinctive values each
    let cases: Vec<(lancedb_field_data_type_t, EngineType, usize)> = vec![
        (lancedb_field_data_type_t::LanceDBFieldTypeInt8, EngineType::Int8, 1),
        (lancedb_field_data_type_t::LanceDBFieldTypeInt16, EngineType::Int16, 2),
        (lancedb_field_data_type_t::LanceDBFieldTypeInt32, EngineType::Int32, 4),
        (lancedb_field_data_type_t::LanceDBFieldTypeInt64, EngineType::Int64, 8),
        (lancedb_field_data_type_t::LanceDBFieldTypeUInt8, EngineType::UInt8, 1),
        (lancedb_field_data_type_t::LanceDBFieldTypeUInt16, EngineType::UInt16, 2),
        (lancedb_field_data_type_t::LanceDBFieldTypeUInt32, EngineType::UInt32, 4),
        (lancedb_field_data_type_t::LanceDBFieldTypeUInt64, EngineType::UInt64, 8),
        (lancedb_field_data_type_t::LanceDBFieldTypeFloat16, EngineType::Float16, 2),
        (lancedb_field_data_type_t::LanceDBFieldTypeFloat32, EngineType::Float32, 4),
        (lancedb_field_data_type_t::LanceDBFieldTypeFloat64, EngineType::Float64, 8),
        (lancedb_field_data_type_t::LanceDBFieldTypeTimestamp, EngineType::TimestampMillisecond, 8),
    ];
    for (kind, engine_type, width) in cases {
        let raw: Vec<u8> = (0..3 * width).map(|b| (b * 37 + 11) as u8).collect();
        let schema = EngineSchema {
            fields: vec![EngineField {
                name: "c".to_string(),
                data_type: engine_type,
                nullable: false,
            }],
        };
        let payload = RowSetPayload {
            columns: vec![ColumnPayload {
                name: "c".to_string(),
                data_type: kind,
                field_type: lancedb_field_type_t::LanceDBFieldTypeScalar,
                element_count: 3,
                dimension: 1,
                data: PayloadData::Raw(raw.clone()),
            }],
        };
        let batch = decode_row_set(payload, &schema).expect("decodes");
        let back = encode_batch(batch).expect("encodes");
        match &back.columns[0].data {
            PayloadData::Raw(out) => assert_eq!(out, &raw),
            _ => panic!("fixed-width column re-encodes to raw bytes"),
        }
    }
}

#[test]
fn encode_rejects_malformed_batch() {
    // a word too wide for its kind cannot be a real int8 bit pattern
    let bad = ColumnBatch {
        columns: vec![BatchColumn {
            name: "c".to_string(),
            data_type: lancedb_field_data_type_t::LanceDBFieldTypeInt8,
            field_type: lancedb_field_type_t::LanceDBFieldTypeScalar,
            row_count: 1,
            dimension: 1,
            values: ColumnValues::Words(vec![0x1ff]),
        }],
    };
    assert!(matches!(encode_batch(bad), Err(BridgeError::InvalidArgument)));
    // a scalar column pretending to have a vector dimension
    let bad_dim = ColumnBatch {
        columns: vec![BatchColumn {
            name: "c".to_string(),
            data_type: lancedb_field_data_type_t::LanceDBFieldTypeInt8,
            field_type: lancedb_field_type_t::LanceDBFieldTypeScalar,
            row_count: 1,
            dimension: 3,
            values: ColumnValues::Words(vec![1, 2, 3]),
        }],
    };
    assert!(matches!(encode_batch(bad_dim), Err(BridgeError::InvalidArgument)));
}

#[test]
fn search_uses_first_field_of_that_name() {
    // a hand-built schema may repeat a name; the first field decides
    let schema = EngineSchema {
        fields: vec![
            EngineField {
                name: "v".to_string(),
                data_type: EngineType::Int32,
                nullable: false,
            },
            EngineField {
                name: "v".to_string(),
                data_type: EngineType::FixedSizeList(
                    lancedb_field_data_type_t::LanceDBFieldTypeFloat32,
                    2,
                ),
                nullable: true,
            },
        ],
    };
    let r = build_search_request(&schema, &"v".to_string(), &vec![0u8; 8], 2);
    assert!(matches!(r, Err(BridgeError::UnsupportedType)));
}

#[test]
fn create_table_plan_pairs_ids_with_chunks() {
    // ids 0..N-1 paired with successive length-D chunks of the buffer
    let flat = [10.0f32, 11.0, 12.0, 20.0, 21.0, 22.0];
    let buf = f32_bytes(&flat);
    let plan = build_create_table_plan(&buf, 3, 2).expect("plan builds");
    assert_eq!(plan.schema.fields.len(), 2);
    assert_eq!(plan.schema.fields[0].name, "id");
    assert_eq!(plan.schema.fields[1].name, "vector");
    match &plan.seed.columns[0].values {
        ColumnValues::Words(ids) => assert_eq!(ids, &vec![0u64, 1u64]),
        _ => panic!("id column is words"),
    }
    match &plan.seed.columns[1].values {
        ColumnValues::Words(vs) => {
            assert_eq!(vs.len(), 6);
            for (j, v) in flat.iter().enumerate() {
                assert_eq!(vs[j], v.to_bits() as u64);
            }
        }
        _ => panic!("vector column is words"),
    }
    assert_eq!(plan.seed.columns[1].dimension, 3);
    assert_eq!(plan.seed.columns[1].row_count, 2);
}

#[test]
fn create_table_plan_validates_buffer_size() {
    let buf = f32_bytes(&[1.0, 2.0, 3.0]);
    assert!(matches!(
        build_create_table_plan(&buf, 2, 2),
        Err(BridgeError::InvalidArgument)
    ));
    assert!(matches!(
        build_create_table_plan(&buf, 0, 3),
        Err(BridgeError::InvalidArgument)
    ));
    assert!(matches!(
        build_create_table_plan(&buf, 3, -1),
        Err(BridgeError::InvalidArgument)
    ));
}

#[test]
fn images_scenario_marshals_end_to_end() {
    // the marshaling half of the nearest-neighbor scenario: create the
    // `images` schema, insert two rows, build the query, and re-encode a
    // result batch the engine would return with id 0 ranked first at
    // distance 0; the distance computation itself is the engine's
    let descriptor = SchemaDescriptor {
        fields: vec![
            scalar_field("id", lancedb_field_data_type_t::LanceDBFieldTypeInt32),
            vector_field("vec", lancedb_field_data_type_t::LanceDBFieldTypeFloat32, 4),
        ],
    };
    let schema = build_engine_schema(&descriptor).expect("images schema builds");
    let payload = RowSetPayload {
        columns: vec![
            int32_column("id", &[0, 1]),
            f32_vector_column("vec", 2, 4, &[1.0, 0.0, 0.0, 0.0, 0.0, 1.0, 0.0, 0.0]),
        ],
    };
    let batch = decode_row_set(payload, &schema).expect("rows decode");
    assert_eq!(batch.columns[0].row_count, 2);

    let query = f32_bytes(&[1.0, 0.0, 0.0, 0.0]);
    let req = build_search_request(&schema, &"vec".to_string(), &query, 4)
        .expect("query builds");
    assert_eq!(req.query_words[0], 1.0f32.to_bits() as u64);

    // the engine's result batch: both rows nearest-first, plus the
    // synthetic distance column it appends
    let mut result = batch;
    result.columns.push(lancedb_bridge::payload::BatchColumn {
        name: "_distance".to_string(),
        data_type: lancedb_field_data_type_t::LanceDBFieldTypeFloat32,
        field_type: lancedb_field_type_t::LanceDBFieldTypeScalar,
        row_count: 2,
        dimension: 1,
        values: ColumnValues::Words(vec![
            0.0f32.to_bits() as u64,
            1.0f32.to_bits() as u64,
        ]),
    });
    let out = encode_batch(result).expect("result encodes");
    assert_eq!(out.columns.len(), 3);
    match &out.columns[2].data {
        PayloadData::Raw(raw) => {
            let d0 = f32::from_le_bytes([raw[0], raw[1], raw[2], raw[3]]);
            let d1 = f32::from_le_bytes([raw[4], raw[5], raw[6], raw[7]]);
            assert_eq!(d0, 0.0);
            assert!(d0 < d1);
        }
        _ => panic!("distance column re-encodes to raw bytes"),
    }
}
