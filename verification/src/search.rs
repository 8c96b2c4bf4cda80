use vstd::prelude::*;
use crate::codec::le_word;
use crate::codec::lemma_pow256_values;
use crate::codec::pow256;
use crate::codec::words_from_le_bytes;
use crate::codec::words_to_le_bytes;
use crate::errors::BridgeError;
use crate::kinds::byte_width;
use crate::kinds::is_search_float;
use crate::kinds::lancedb_field_data_type_t;
use crate::kinds::lancedb_field_type_t;
use crate::kinds::width_of;
use crate::kinds::EngineType;
use crate::payload::spec_batch_column_wf;
use crate::payload::BatchColumn;
use crate::payload::ColumnBatch;
use crate::payload::ColumnPayload;
use crate::payload::ColumnValues;
use crate::payload::PayloadData;
use crate::payload::RowSetPayload;
use crate::schema::find_field;
use crate::schema::EngineField;
use crate::schema::EngineSchema;

verus! {

/// A validated nearest-neighbor query, ready for the engine: the vector
/// column to search, its element kind (always float32 or float64), the
/// number of query values, and their exact bit patterns. The engine is
/// always asked for cosine distance.
#[derive(Debug, Clone)]
pub struct SearchRequest {
    pub column: String,
    pub element_kind: lancedb_field_data_type_t,
    pub dimension: usize,
    pub query_words: Vec<u64>,
}

/// The first field named `name`, scanning in schema order.
pub open spec fn spec_first_field(s: Seq<EngineField>, name: Seq<char>) -> Option<EngineField>
    decreases s.len(),
{
    if s.len() == 0 {
        None
    } else if s[0].name@ == name {
        Some(s[0])
    } else {
        spec_first_field(s.drop_first(), name)
    }
}

/// If `i` is the first index whose field is named `name`, that field is
/// the first field so named.
proof fn lemma_first_field_at(s: Seq<EngineField>, name: Seq<char>, i: int)
    requires
        0 <= i < s.len(),
        s[i].name@ == name,
        forall|j: int| 0 <= j < i ==> (#[trigger] s[j]).name@ != name,
    ensures
        spec_first_field(s, name) == Some(s[i]),
    decreases i,
{
    if i == 0 {
    } else {
        assert(s[0].name@ != name);
        assert forall|j: int| 0 <= j < i - 1 implies (#[trigger] s.drop_first()[j]).name@
            != name by {
            assert(s.drop_first()[j] == s[j + 1]);
        }
        assert(s.drop_first()[i - 1] == s[i]);
        lemma_first_field_at(s.drop_first(), name, i - 1);
    }
}

/// A schema with no field named `name` has no first field so named.
proof fn lemma_first_field_none(s: Seq<EngineField>, name: Seq<char>)
    requires
        forall|j: int| 0 <= j < s.len() ==> (#[trigger] s[j]).name@ != name,
    ensures
        spec_first_field(s, name) is None,
    decreases s.len(),
{
    if s.len() > 0 {
        assert forall|j: int| 0 <= j < s.drop_first().len() implies (
        #[trigger] s.drop_first()[j]).name@ != name by {
            assert(s.drop_first()[j] == s[j + 1]);
        }
        lemma_first_field_none(s.drop_first(), name);
    }
}

/// What is wrong with querying field `f` with a buffer of `qlen` bytes
/// as `dim` values, if anything: a field that is not a fixed-size list
/// is not a vector field, and a list of anything but float32 or float64
/// cannot be searched — both unsupported types; a buffer that is not
/// exactly `dim` values of the element width is an invalid argument.
pub open spec fn spec_vector_query_error(f: EngineField, qlen: nat, dim: nat) -> Option<
    BridgeError,
> {
    match f.data_type {
        EngineType::FixedSizeList(k, d) => {
            if !is_search_float(k) {
                Some(BridgeError::UnsupportedType)
            } else if qlen != dim * width_of(k) {
                Some(BridgeError::InvalidArgument)
            } else {
                None
            }
        },
        _ => Some(BridgeError::UnsupportedType),
    }
}

/// Build a nearest-neighbor query against `column_name` from a flat
/// query buffer of `dimension` values. Fails with `ColumnNotFound` when
/// the schema has no field of that name; otherwise the first field so
/// named decides: searching a non-vector field or a vector of any
/// element kind but float32/float64 is an unsupported type, and a
/// buffer that is not exactly `dimension` values of the element's width
/// is an invalid argument. On success the request carries the exact bit
/// patterns of the query values, read little-endian from the buffer.
pub fn build_search_request(
    schema: &EngineSchema,
    column_name: &String,
    query: &Vec<u8>,
    dimension: usize,
) -> (res: Result<SearchRequest, BridgeError>)
    ensures
        spec_first_field(schema.fields@, column_name@) is None ==> res == Err::<
            SearchRequest,
            BridgeError,
        >(BridgeError::ColumnNotFound),
        spec_first_field(schema.fields@, column_name@) matches Some(f) ==> match res {
            Ok(r) => {
                &&& spec_vector_query_error(f, query@.len() as nat, dimension as nat) is None
                &&& r.column@ == column_name@
                &&& f.data_type matches EngineType::FixedSizeList(k, d) && r.element_kind == k
                &&& r.dimension == dimension
                &&& r.query_words@.len() == dimension
                &&& forall|j: int|
                    0 <= j < dimension ==> ((#[trigger] r.query_words@[j]) as nat) == le_word(
                        query@,
                        j * width_of(r.element_kind),
                        width_of(r.element_kind),
                    )
            },
            Err(e) => spec_vector_query_error(f, query@.len() as nat, dimension as nat) == Some(
                e,
            ),
        },
{
    let ix = match find_field(schema, column_name) {
        Some(ix) => ix,
        None => {
            proof {
                lemma_first_field_none(schema.fields@, column_name@);
            }
            return Err(BridgeError::ColumnNotFound);
        },
    };
    proof {
        lemma_first_field_at(schema.fields@, column_name@, ix as int);
    }
    let f = &schema.fields[ix];
    let (kind, _dim) = match &f.data_type {
        EngineType::FixedSizeList(k, d) => (*k, *d),
        _ => {
            return Err(BridgeError::UnsupportedType);
        },
    };
    let is_float = matches!(
        kind,
        lancedb_field_data_type_t::LanceDBFieldTypeFloat32
            | lancedb_field_data_type_t::LanceDBFieldTypeFloat64
    );
    if !is_float {
        return Err(BridgeError::UnsupportedType);
    }
    let w = byte_width(kind);
    let qlen = query.len();
    let needed = match dimension.checked_mul(w) {
        Some(t) => t,
        None => {
            proof {
                assert(qlen as nat != dimension as nat * width_of(kind));
            }
            return Err(BridgeError::InvalidArgument);
        },
    };
    if qlen != needed {
        return Err(BridgeError::InvalidArgument);
    }
    let words = words_from_le_bytes(query, dimension, w);
    Ok(
        SearchRequest {
            column: column_name.clone(),
            element_kind: kind,
            dimension,
            query_words: words,
        },
    )
}

/// `c` is exactly the encoding of batch column `b`: same name, kind,
/// role and counts, with every fixed-width value's bit pattern written
/// little-endian into one flat buffer, and text or blob elements
/// carried over unchanged.
pub open spec fn spec_column_encodes(b: BatchColumn, c: ColumnPayload) -> bool {
    &&& c.name@ == b.name@
    &&& c.data_type == b.data_type
    &&& c.field_type == b.field_type
    &&& c.element_count == b.row_count
    &&& c.dimension == b.dimension
    &&& match b.values {
        ColumnValues::Words(ws) => {
            &&& c.data matches PayloadData::Raw(buf)
            &&& c.data->Raw_0@.len() == ws@.len() * width_of(b.data_type)
            &&& forall|j: int|
                0 <= j < ws@.len() ==> le_word(
                    c.data->Raw_0@,
                    j * width_of(b.data_type),
                    width_of(b.data_type),
                ) == ((#[trigger] ws@[j]) as nat)
        },
        ColumnValues::Texts(ts) => c.data matches PayloadData::Texts(ps) && ps == ts,
        ColumnValues::Blobs(bs) => c.data matches PayloadData::Blobs(ps) && ps == bs,
    }
}

/// What stops one decoded column from being encoded, if anything: a
/// malformed column, or one whose row count is not the batch's, is an
/// invalid argument; a flat buffer too large for the machine cannot be
/// allocated.
pub open spec fn spec_encode_column_error(b: BatchColumn, expected_rows: nat) -> Option<
    BridgeError,
> {
    if !spec_batch_column_wf(b) || b.row_count != expected_rows {
        Some(BridgeError::InvalidArgument)
    } else if b.values matches ColumnValues::Words(ws) && ws@.len() * width_of(b.data_type)
        > usize::MAX {
        Some(BridgeError::AllocationFailure)
    } else {
        None
    }
}

/// The error of encoding a whole batch, if any: the first column error
/// in order decides.
pub open spec fn spec_encode_error(b: ColumnBatch, n: int) -> Option<BridgeError>
    decreases n,
{
    if n <= 0 {
        None
    } else if spec_encode_error(b, n - 1) is Some {
        spec_encode_error(b, n - 1)
    } else {
        spec_encode_column_error(b.columns[n - 1], spec_batch_rows(b))
    }
}

/// The row count every column of a batch must share: the first
/// column's, or 0 for an empty batch.
pub open spec fn spec_batch_rows(b: ColumnBatch) -> nat {
    if b.columns@.len() == 0 {
        0
    } else {
        b.columns@[0].row_count as nat
    }
}

/// A batch with no error among its first `n` columns has none among a
/// shorter prefix either.
proof fn lemma_encode_error_prefix(b: ColumnBatch, m: int, n: int)
    requires
        0 <= m <= n,
        spec_encode_error(b, n) is None,
    ensures
        spec_encode_error(b, m) is None,
    decreases n,
{
    if m < n {
        lemma_encode_error_prefix(b, m, n - 1);
    }
}

/// The first column error decides the whole batch's error, however many
/// clean columns follow it.
proof fn lemma_encode_error_propagates(b: ColumnBatch, i: int, n: int)
    requires
        0 <= i < n,
        spec_encode_error(b, i) is None,
        spec_encode_column_error(b.columns@[i], spec_batch_rows(b)) is Some,
    ensures
        spec_encode_error(b, n) == spec_encode_column_error(b.columns@[i], spec_batch_rows(b)),
    decreases n,
{
    if i + 1 < n {
        lemma_encode_error_propagates(b, i, n - 1);
    }
}

/// Check that every word of a column fits its kind's width.
fn words_fit(ws: &Vec<u64>, w: usize) -> (r: bool)
    requires
        w == 1 || w == 2 || w == 4 || w == 8,
    ensures
        r == forall|i: int| 0 <= i < ws@.len() ==> ((#[trigger] ws@[i]) as nat) < pow256(w as nat),
{
    proof {
        lemma_pow256_values();
        assert(pow256(0) == 1);
        assert(pow256(1) == 256 * pow256(0));
        assert(pow256(2) == 256 * pow256(1));
        assert(pow256(3) == 256 * pow256(2));
        assert(pow256(4) == 256 * pow256(3));
    }
    if w == 8 {
        proof {
            assert forall|i: int|
                0 <= i < ws@.len() implies ((#[trigger] ws@[i]) as nat) < pow256(w as nat) by {
                assert(ws@[i] <= u64::MAX);
            }
        }
        return true;
    }
    let limit: u64 = if w == 1 {
        0x100
    } else if w == 2 {
        0x10000
    } else {
        0x100000000
    };
    let n = ws.len();
    let mut i: usize = 0;
    while i < n
        invariant
            n == ws@.len(),
            i <= n,
            w == 1 || w == 2 || w == 4,
            limit as nat == pow256(w as nat),
            forall|t: int| 0 <= t < i ==> ((#[trigger] ws@[t]) as nat) < pow256(w as nat),
        decreases n - i,
    {
        if ws[i] >= limit {
            proof {
                assert(((ws@[i as int]) as nat) >= pow256(w as nat));
            }
            return false;
        }
        i = i + 1;
    }
    true
}

/// Encode one decoded column into a flat payload column, moving its
/// contents. Succeeds exactly when the column is well-formed with the
/// expected row count and its flat buffer fits the machine.
fn encode_column(b: BatchColumn, expected_rows: usize) -> (res: Result<
    ColumnPayload,
    BridgeError,
>)
    ensures
        res is Ok <==> spec_encode_column_error(b, expected_rows as nat) is None,
        res matches Err(e) ==> spec_encode_column_error(b, expected_rows as nat) == Some(e),
        res matches Ok(c) ==> spec_column_encodes(b, c),
{
    let ghost bg = b;
    let BatchColumn { name, data_type, field_type, row_count, dimension, values } = b;
    let is_vector = match field_type {
        lancedb_field_type_t::LanceDBFieldTypeScalar => false,
        lancedb_field_type_t::LanceDBFieldTypeVector => true,
    };
    if !is_vector && dimension != 1 {
        return Err(BridgeError::InvalidArgument);
    }
    let w = byte_width(data_type);
    if is_vector && (dimension < 1 || w == 0) {
        return Err(BridgeError::InvalidArgument);
    }
    if row_count != expected_rows {
        return Err(BridgeError::InvalidArgument);
    }
    match values {
        ColumnValues::Words(ws) => {
            if w == 0 {
                return Err(BridgeError::InvalidArgument);
            }
            proof {
                assert(w == 1 || w == 2 || w == 4 || w == 8);
            }
            let ws_len = ws.len();
            let total = match row_count.checked_mul(dimension) {
                Some(t) => t,
                None => {
                    proof {
                        lemma_len_below_product(ws_len as nat, row_count as nat,
                            dimension as nat);
                    }
                    return Err(BridgeError::InvalidArgument);
                },
            };
            if ws_len != total {
                return Err(BridgeError::InvalidArgument);
            }
            if !words_fit(&ws, w) {
                return Err(BridgeError::InvalidArgument);
            }
            if ws.len().checked_mul(w).is_none() {
                return Err(BridgeError::AllocationFailure);
            }
            let buf = words_to_le_bytes(&ws, w);
            Ok(
                ColumnPayload {
                    name,
                    data_type,
                    field_type,
                    element_count: row_count,
                    dimension,
                    data: PayloadData::Raw(buf),
                },
            )
        },
        ColumnValues::Texts(ts) => {
            let kind_ok = matches!(
                data_type,
                lancedb_field_data_type_t::LanceDBFieldTypeString
            );
            if !kind_ok || is_vector || ts.len() != row_count {
                return Err(BridgeError::InvalidArgument);
            }
            Ok(
                ColumnPayload {
                    name,
                    data_type,
                    field_type,
                    element_count: row_count,
                    dimension,
                    data: PayloadData::Texts(ts),
                },
            )
        },
        ColumnValues::Blobs(bs) => {
            let kind_ok = matches!(data_type, lancedb_field_data_type_t::LanceDBFieldTypeBlob);
            if !kind_ok || is_vector || bs.len() != row_count {
                return Err(BridgeError::InvalidArgument);
            }
            Ok(
                ColumnPayload {
                    name,
                    data_type,
                    field_type,
                    element_count: row_count,
                    dimension,
                    data: PayloadData::Blobs(bs),
                },
            )
        },
    }
}

/// A sequence's length never reaches a product that exceeds the
/// machine's word range.
proof fn lemma_len_below_product(len: nat, a: nat, b: nat)
    requires
        len <= usize::MAX,
        a * b > usize::MAX,
    ensures
        len != a * b,
{
}

/// Round trip for one column, every supported kind at once: re-encoding
/// the decoding of a well-shaped payload column reproduces its contents
/// bit for bit — the flat buffer of a fixed-width column byte for byte
/// (so integer, float and timestamp values come back with their exact
/// bit patterns), and the text and blob elements unchanged.
pub proof fn lemma_column_round_trip(c: ColumnPayload, b: BatchColumn, c2: ColumnPayload)
    requires
        crate::payload::spec_payload_shape_ok(c),
        crate::insert::spec_column_decodes(c, b),
        spec_column_encodes(b, c2),
    ensures
        c2.name@ == c.name@,
        c2.data_type == c.data_type,
        c2.field_type == c.field_type,
        c2.element_count == c.element_count,
        c2.dimension == c.dimension,
        c.data matches PayloadData::Raw(buf) ==> c2.data matches PayloadData::Raw(buf2)
            && c2.data->Raw_0@ =~= c.data->Raw_0@,
        c.data matches PayloadData::Texts(ts) ==> c2.data == c.data,
        c.data matches PayloadData::Blobs(bs) ==> c2.data == c.data,
{
    match b.values {
        ColumnValues::Words(ws) => {
            let w = width_of(c.data_type);
            let buf = c.data->Raw_0@;
            let buf2 = c2.data->Raw_0@;
            assert(buf.len() == c.element_count * c.dimension * w);
            assert(ws@.len() == c.element_count * c.dimension);
            assert(buf2.len() == ws@.len() * w);
            assert(buf.len() == ws@.len() * w) by (nonlinear_arith)
                requires
                    buf.len() == c.element_count * c.dimension * w,
                    ws@.len() == c.element_count * c.dimension,
            ;
            assert forall|i: int|
                0 <= i < ws@.len() implies le_word(buf, #[trigger] (i * w), w) == le_word(
                buf2,
                i * w,
                w,
            ) by {
                assert(((ws@[i]) as nat) == le_word(buf, i * w, w));
                assert(le_word(buf2, i * w, w) == ((ws@[i]) as nat));
            }
            crate::codec::lemma_word_buffers_equal(buf, buf2, ws@.len(), w);
        },
        ColumnValues::Texts(_) => {},
        ColumnValues::Blobs(_) => {},
    }
}

/// Round trip for a whole row set: if a batch is the decoding of a
/// well-shaped row set and a second row set is the encoding of that
/// batch, the two row sets carry the same columns with the same
/// contents — what a caller reads back is bit-identical to what was
/// inserted.
pub proof fn lemma_row_set_round_trip(p: RowSetPayload, b: ColumnBatch, p2: RowSetPayload)
    requires
        p.columns@.len() == b.columns@.len(),
        p2.columns@.len() == b.columns@.len(),
        forall|i: int|
            0 <= i < p.columns@.len() ==> crate::payload::spec_payload_shape_ok(
                #[trigger] p.columns@[i],
            ),
        forall|i: int|
            0 <= i < p.columns@.len() ==> crate::insert::spec_column_decodes(
                p.columns@[i],
                #[trigger] b.columns@[i],
            ),
        forall|i: int|
            0 <= i < p.columns@.len() ==> spec_column_encodes(
                b.columns@[i],
                #[trigger] p2.columns@[i],
            ),
    ensures
        forall|i: int|
            0 <= i < p.columns@.len() ==> {
                let c = #[trigger] p.columns@[i];
                let c2 = p2.columns@[i];
                &&& c2.name@ == c.name@
                &&& c2.data_type == c.data_type
                &&& c2.field_type == c.field_type
                &&& c2.element_count == c.element_count
                &&& c2.dimension == c.dimension
                &&& (c.data matches PayloadData::Raw(buf) ==> c2.data->Raw_0@ =~= c.data->Raw_0@)
                &&& (c.data matches PayloadData::Texts(ts) ==> c2.data == c.data)
                &&& (c.data matches PayloadData::Blobs(bs) ==> c2.data == c.data)
            },
{
    assert forall|i: int| 0 <= i < p.columns@.len() implies {
        let c = #[trigger] p.columns@[i];
        let c2 = p2.columns@[i];
        &&& c2.name@ == c.name@
        &&& c2.data_type == c.data_type
        &&& c2.field_type == c.field_type
        &&& c2.element_count == c.element_count
        &&& c2.dimension == c.dimension
        &&& (c.data matches PayloadData::Raw(buf) ==> c2.data->Raw_0@ =~= c.data->Raw_0@)
        &&& (c.data matches PayloadData::Texts(ts) ==> c2.data == c.data)
        &&& (c.data matches PayloadData::Blobs(bs) ==> c2.data == c.data)
    } by {
        lemma_column_round_trip(p.columns@[i], b.columns@[i], p2.columns@[i]);
    }
}

/// Re-encode a whole result batch into flat payload columns for the
/// caller, moving its contents: the exact inverse of the insert
/// decoding, column by column in batch order. Succeeds exactly when
/// every column is well-formed, all share the first column's row count
/// and every flat buffer fits the machine; on success every output
/// column is the exact encoding of its batch column, so the bytes a
/// caller reads are bit-identical to the values the engine returned.
pub fn encode_batch(batch: ColumnBatch) -> (res: Result<RowSetPayload, BridgeError>)
    ensures
        res is Ok <==> spec_encode_error(batch, batch.columns@.len() as int) is None,
        res matches Err(e) ==> spec_encode_error(batch, batch.columns@.len() as int) == Some(e),
        res matches Ok(p) ==> {
            &&& p.columns@.len() == batch.columns@.len()
            &&& forall|i: int|
                0 <= i < p.columns@.len() ==> spec_column_encodes(
                    batch.columns@[i],
                    #[trigger] p.columns@[i],
                )
        },
{
    let ghost cols = batch.columns@;
    let n = batch.columns.len();
    let expected_rows: usize = if n > 0 {
        batch.columns[0].row_count
    } else {
        0
    };
    proof {
        assert(expected_rows as nat == spec_batch_rows(batch));
    }
    let mut rest = batch.columns;
    let mut out: Vec<ColumnPayload> = Vec::new();
    let mut i: usize = 0;
    while i < n
        invariant
            n == cols.len(),
            cols == batch.columns@,
            i <= n,
            rest@ =~= cols.subrange(i as int, n as int),
            expected_rows as nat == spec_batch_rows(batch),
            spec_encode_error(batch, i as int) is None,
            out@.len() == i,
            forall|t: int|
                0 <= t < i ==> spec_column_encodes(cols[t], #[trigger] out@[t]),
        decreases n - i,
    {
        let b = rest.remove(0);
        proof {
            assert(b == cols[i as int]);
            assert(rest@ =~= cols.subrange(i as int + 1, n as int));
        }
        match encode_column(b, expected_rows) {
            Ok(c) => {
                out.push(c);
                proof {
                    assert(spec_encode_column_error(cols[i as int], spec_batch_rows(batch))
                        is None);
                    assert(spec_encode_error(batch, i as int + 1) is None);
                }
                i = i + 1;
            },
            Err(e) => {
                proof {
                    lemma_encode_error_propagates(batch, i as int, n as int);
                }
                return Err(e);
            },
        }
    }
    Ok(RowSetPayload { columns: out })
}

} // verus!
