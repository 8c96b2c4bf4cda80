use vstd::prelude::*;
use crate::codec::le_word;
use crate::codec::lemma_le_word_bound;
use crate::codec::pow256;
use crate::codec::words_from_le_bytes;
use crate::errors::BridgeError;
use crate::kinds::byte_width;
use crate::kinds::is_fixed_width;
use crate::kinds::lancedb_field_data_type_t;
use crate::kinds::lancedb_field_type_t;
use crate::kinds::scalar_engine_type;
use crate::kinds::width_of;
use crate::kinds::EngineType;
use crate::payload::spec_batch_column_wf;
use crate::payload::spec_batch_wf;
use crate::payload::spec_column_error;
use crate::payload::spec_column_matches_field;
use crate::payload::spec_expected_rows;
use crate::payload::spec_row_set_error;
use crate::payload::BatchColumn;
use crate::payload::ColumnBatch;
use crate::payload::ColumnPayload;
use crate::payload::ColumnValues;
use crate::payload::PayloadData;
use crate::payload::RowSetPayload;
use crate::schema::EngineField;
use crate::schema::EngineSchema;

verus! {

/// `b` is exactly the decoding of payload column `c`: same name, kind,
/// role and counts, with every fixed-width value's bit pattern read
/// little-endian from the payload buffer, and text or blob elements
/// carried over unchanged.
pub open spec fn spec_column_decodes(c: ColumnPayload, b: BatchColumn) -> bool {
    &&& b.name@ == c.name@
    &&& b.data_type == c.data_type
    &&& b.field_type == c.field_type
    &&& b.row_count == c.element_count
    &&& b.dimension == c.dimension
    &&& match b.values {
        ColumnValues::Words(ws) => {
            &&& c.data matches PayloadData::Raw(buf)
            &&& ws@.len() == c.element_count * c.dimension
            &&& forall|j: int|
                0 <= j < ws@.len() ==> ((#[trigger] ws@[j]) as nat) == le_word(
                    c.data->Raw_0@,
                    j * width_of(c.data_type),
                    width_of(c.data_type),
                )
        },
        ColumnValues::Texts(ts) => c.data matches PayloadData::Texts(ps) && ts == ps,
        ColumnValues::Blobs(bs) => c.data matches PayloadData::Blobs(ps) && bs == ps,
    }
}

/// A row set with no error among its first `n` columns has none among a
/// shorter prefix either.
proof fn lemma_row_set_error_prefix(
    p: Seq<ColumnPayload>,
    s: Seq<EngineField>,
    m: int,
    n: int,
)
    requires
        0 <= m <= n,
        spec_row_set_error(p, s, n) is None,
    ensures
        spec_row_set_error(p, s, m) is None,
    decreases n,
{
    if m < n {
        lemma_row_set_error_prefix(p, s, m, n - 1);
    }
}

/// The first column error decides the whole row set's error, however
/// many clean columns follow it.
proof fn lemma_row_set_error_propagates(
    p: Seq<ColumnPayload>,
    s: Seq<EngineField>,
    i: int,
    n: int,
)
    requires
        0 <= i < n,
        p.len() == s.len(),
        spec_row_set_error(p, s, i) is None,
        spec_column_error(p[i], s[i], spec_expected_rows(p)) is Some,
    ensures
        spec_row_set_error(p, s, n) == spec_column_error(p[i], s[i], spec_expected_rows(p)),
    decreases n,
{
    if i + 1 < n {
        lemma_row_set_error_propagates(p, s, i, n - 1);
    }
}

/// Decode one payload column against the stored field it must match.
/// Succeeds exactly when the column carries no error; the decoded
/// column is well-formed and is the exact decoding of the payload.
fn decode_column(c: ColumnPayload, f: &EngineField, expected_rows: usize) -> (res: Result<
    BatchColumn,
    BridgeError,
>)
    ensures
        res is Ok <==> spec_column_error(c, *f, expected_rows as nat) is None,
        res matches Err(e) ==> spec_column_error(c, *f, expected_rows as nat) == Some(e),
        res matches Ok(b) ==> {
            &&& spec_batch_column_wf(b)
            &&& spec_column_decodes(c, b)
        },
{
    let ghost cg = c;
    let ColumnPayload { name, data_type, field_type, element_count, dimension, data } = c;
    let is_vector = match field_type {
        lancedb_field_type_t::LanceDBFieldTypeScalar => false,
        lancedb_field_type_t::LanceDBFieldTypeVector => true,
    };
    let w = byte_width(data_type);
    if is_vector && w == 0 {
        return Err(BridgeError::UnsupportedType);
    }
    // the column must be, structurally, the stored field
    let matches_field: bool = if name == f.name {
        if is_vector {
            if 0 < dimension && dimension <= 0x7fffffff {
                let listed = EngineType::FixedSizeList(data_type, dimension as i32);
                f.data_type == listed
            } else {
                false
            }
        } else {
            dimension == 1 && f.data_type == scalar_engine_type(data_type)
        }
    } else {
        false
    };
    proof {
        assert(matches_field == spec_column_matches_field(cg, *f));
    }
    if !matches_field {
        return Err(BridgeError::SchemaMismatch);
    }
    if element_count != expected_rows {
        return Err(BridgeError::InvalidArgument);
    }
    if w != 0 {
        // fixed-width kind: the buffer must hold exactly
        // element_count * dimension values of w bytes each
        let buf = match data {
            PayloadData::Raw(buf) => buf,
            PayloadData::Texts(_) => {
                return Err(BridgeError::InvalidArgument);
            },
            PayloadData::Blobs(_) => {
                return Err(BridgeError::InvalidArgument);
            },
        };
        let buf_len = buf.len();
        let total = match element_count.checked_mul(dimension) {
            Some(t) => t,
            None => {
                proof {
                    lemma_shape_needs_product(cg, buf_len as nat);
                }
                return Err(BridgeError::InvalidArgument);
            },
        };
        let needed = match total.checked_mul(w) {
            Some(t) => t,
            None => {
                proof {
                    lemma_shape_needs_product(cg, buf_len as nat);
                }
                return Err(BridgeError::InvalidArgument);
            },
        };
        if buf_len != needed {
            proof {
                assert(needed == cg.element_count * cg.dimension * width_of(cg.data_type));
            }
            return Err(BridgeError::InvalidArgument);
        }
        proof {
            assert(buf@.len() == total * w);
        }
        let words = words_from_le_bytes(&buf, total, w);
        proof {
            assert forall|j: int| 0 <= j < words@.len() implies ((#[trigger] words@[j]) as nat)
                < pow256(width_of(cg.data_type)) by {
                assert(j * w + w <= total * w) by (nonlinear_arith)
                    requires
                        0 <= j < total,
                        1 <= w,
                ;
                lemma_le_word_bound(buf@, j * w, w as nat);
            }
        }
        Ok(
            BatchColumn {
                name,
                data_type,
                field_type,
                row_count: element_count,
                dimension,
                values: ColumnValues::Words(words),
            },
        )
    } else if matches!(data_type, lancedb_field_data_type_t::LanceDBFieldTypeString) {
        let ts = match data {
            PayloadData::Texts(ts) => ts,
            _ => {
                return Err(BridgeError::InvalidArgument);
            },
        };
        if ts.len() != element_count {
            return Err(BridgeError::InvalidArgument);
        }
        Ok(
            BatchColumn {
                name,
                data_type,
                field_type,
                row_count: element_count,
                dimension,
                values: ColumnValues::Texts(ts),
            },
        )
    } else {
        let bs = match data {
            PayloadData::Blobs(bs) => bs,
            _ => {
                return Err(BridgeError::InvalidArgument);
            },
        };
        if bs.len() != element_count {
            return Err(BridgeError::InvalidArgument);
        }
        Ok(
            BatchColumn {
                name,
                data_type,
                field_type,
                row_count: element_count,
                dimension,
                values: ColumnValues::Blobs(bs),
            },
        )
    }
}

/// A buffer can only have the shape a column advertises when the full
/// product of count, dimension and width fits the machine; a buffer is
/// never longer than that.
proof fn lemma_shape_needs_product(c: ColumnPayload, buf_len: nat)
    requires
        is_fixed_width(c.data_type),
        buf_len <= usize::MAX,
        c.element_count * c.dimension > usize::MAX || c.element_count * c.dimension * width_of(
            c.data_type,
        ) > usize::MAX,
    ensures
        buf_len != c.element_count * c.dimension * width_of(c.data_type),
{
    let prod = c.element_count * c.dimension;
    let w = width_of(c.data_type);
    if prod > usize::MAX {
        assert(prod * w >= prod) by (nonlinear_arith)
            requires
                w >= 1,
                prod >= 0,
        ;
    }
}

/// Decode a flat row set into a typed columnar batch against the
/// table's stored schema, column by column in stored order. Succeeds
/// exactly when the row set carries no error: same column count as the
/// schema, every column structurally its stored field, all columns with
/// the first column's row count, and every buffer exactly the
/// advertised size. The batch is well-formed and each column is the
/// exact decoding of its payload column.
pub fn decode_row_set(payload: RowSetPayload, schema: &EngineSchema) -> (res: Result<
    ColumnBatch,
    BridgeError,
>)
    ensures
        res is Ok <==> spec_row_set_error(
            payload.columns@,
            schema.fields@,
            payload.columns@.len() as int,
        ) is None,
        res matches Err(e) ==> spec_row_set_error(
            payload.columns@,
            schema.fields@,
            payload.columns@.len() as int,
        ) == Some(e),
        res matches Ok(b) ==> {
            &&& spec_batch_wf(b)
            &&& b.columns@.len() == payload.columns@.len()
            &&& forall|i: int|
                0 <= i < b.columns@.len() ==> spec_column_decodes(
                    payload.columns@[i],
                    #[trigger] b.columns@[i],
                )
        },
{
    let ghost cols = payload.columns@;
    let ghost sf = schema.fields@;
    let n = payload.columns.len();
    if n != schema.fields.len() {
        return Err(BridgeError::SchemaMismatch);
    }
    let expected_rows: usize = if n > 0 {
        payload.columns[0].element_count
    } else {
        0
    };
    proof {
        assert(expected_rows as nat == spec_expected_rows(cols));
    }
    let mut rest = payload.columns;
    let mut out: Vec<BatchColumn> = Vec::new();
    let mut i: usize = 0;
    while i < n
        invariant
            n == cols.len(),
            n == sf.len(),
            cols == payload.columns@,
            sf == schema.fields@,
            i <= n,
            rest@ =~= cols.subrange(i as int, n as int),
            expected_rows as nat == spec_expected_rows(cols),
            spec_row_set_error(cols, sf, i as int) is None,
            out@.len() == i,
            forall|t: int|
                0 <= t < i ==> spec_batch_column_wf(#[trigger] out@[t]) && spec_column_decodes(
                    cols[t],
                    out@[t],
                ),
        decreases n - i,
    {
        let c = rest.remove(0);
        proof {
            assert(c == cols[i as int]);
            assert(rest@ =~= cols.subrange(i as int + 1, n as int));
        }
        let f = &schema.fields[i];
        match decode_column(c, f, expected_rows) {
            Ok(b) => {
                out.push(b);
                proof {
                    assert(spec_column_error(cols[i as int], sf[i as int], spec_expected_rows(cols))
                        is None);
                    assert(spec_row_set_error(cols, sf, i as int + 1) is None);
                }
                i = i + 1;
            },
            Err(e) => {
                proof {
                    lemma_row_set_error_propagates(cols, sf, i as int, n as int);
                }
                return Err(e);
            },
        }
    }
    proof {
        assert forall|t: int|
            0 <= t < out@.len() implies (#[trigger] out@[t]).row_count == out@[0].row_count by {
            assert(spec_column_decodes(cols[t], out@[t]));
            assert(spec_row_set_error(cols, sf, t + 1) is None) by {
                lemma_row_set_error_prefix(cols, sf, t + 1, n as int);
            }
            assert(spec_column_error(cols[t], sf[t], spec_expected_rows(cols)) is None);
            assert(out@[t].row_count == expected_rows);
            assert(spec_column_decodes(cols[0], out@[0]));
            assert(spec_row_set_error(cols, sf, 1) is None) by {
                lemma_row_set_error_prefix(cols, sf, 1, n as int);
            }
            assert(spec_column_error(cols[0], sf[0], spec_expected_rows(cols)) is None);
            assert(out@[0].row_count == expected_rows);
        }
    }
    Ok(ColumnBatch { columns: out })
}

} // verus!
