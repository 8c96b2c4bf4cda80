use vstd::prelude::*;
use crate::codec::pow256;
use crate::errors::BridgeError;
use crate::kinds::EngineType;
use crate::kinds::is_fixed_width;
use crate::kinds::lancedb_field_data_type_t;
use crate::kinds::lancedb_field_type_t;
use crate::kinds::spec_scalar_engine_type;
use crate::kinds::width_of;
use crate::schema::EngineField;

verus! {

/// The contents of one flat column crossing the boundary. A numeric
/// column (scalar or vector) is one contiguous little-endian buffer; a
/// text or blob column arrives as one owned element per row, which the
/// unverified shell has already materialized from the caller's pointers
/// and its parallel length array.
#[derive(Debug, Clone)]
pub enum PayloadData {
    Raw(Vec<u8>),
    Texts(Vec<String>),
    Blobs(Vec<Vec<u8>>),
}

/// One column of a flat row set: its name, kind, role, row count,
/// vector dimension (1 for scalars) and contents.
#[derive(Debug, Clone)]
pub struct ColumnPayload {
    pub name: String,
    pub data_type: lancedb_field_data_type_t,
    pub field_type: lancedb_field_type_t,
    pub element_count: usize,
    pub dimension: usize,
    pub data: PayloadData,
}

/// One batch of rows as the caller hands it over or receives it back:
/// columns in the destination table's stored order.
#[derive(Debug, Clone)]
pub struct RowSetPayload {
    pub columns: Vec<ColumnPayload>,
}

/// The decoded values of one column: for every fixed-width kind the bit
/// patterns of the values as unsigned words, and for the two
/// variable-length kinds the owned elements themselves. The marshaling
/// layer never interprets numeric values; it moves their bits exactly.
#[derive(Debug, Clone)]
pub enum ColumnValues {
    Words(Vec<u64>),
    Texts(Vec<String>),
    Blobs(Vec<Vec<u8>>),
}

/// One decoded column of a typed batch.
#[derive(Debug, Clone)]
pub struct BatchColumn {
    pub name: String,
    pub data_type: lancedb_field_data_type_t,
    pub field_type: lancedb_field_type_t,
    pub row_count: usize,
    pub dimension: usize,
    pub values: ColumnValues,
}

/// A typed columnar batch: what the engine consumes on insert and
/// produces on search.
#[derive(Debug, Clone)]
pub struct ColumnBatch {
    pub columns: Vec<BatchColumn>,
}

/// Well-formedness of a decoded column: the value container fits the
/// kind, every word fits the kind's width, the element count is the row
/// count times the dimension, scalars have dimension 1 and vectors a
/// positive dimension and a fixed-width kind.
pub open spec fn spec_batch_column_wf(c: BatchColumn) -> bool {
    &&& (c.field_type is LanceDBFieldTypeScalar ==> c.dimension == 1)
    &&& (c.field_type is LanceDBFieldTypeVector ==> c.dimension >= 1 && is_fixed_width(
        c.data_type,
    ))
    &&& match c.values {
        ColumnValues::Words(ws) => {
            &&& is_fixed_width(c.data_type)
            &&& ws@.len() == c.row_count * c.dimension
            &&& forall|i: int|
                0 <= i < ws@.len() ==> ((#[trigger] ws@[i]) as nat) < pow256(
                    width_of(c.data_type),
                )
        },
        ColumnValues::Texts(ts) => {
            &&& c.data_type is LanceDBFieldTypeString
            &&& c.field_type is LanceDBFieldTypeScalar
            &&& ts@.len() == c.row_count
        },
        ColumnValues::Blobs(bs) => {
            &&& c.data_type is LanceDBFieldTypeBlob
            &&& c.field_type is LanceDBFieldTypeScalar
            &&& bs@.len() == c.row_count
        },
    }
}

/// A batch is well-formed when each column is and all columns agree on
/// the row count.
pub open spec fn spec_batch_wf(b: ColumnBatch) -> bool {
    &&& forall|i: int| 0 <= i < b.columns@.len() ==> spec_batch_column_wf(#[trigger] b.columns@[i])
    &&& forall|i: int|
        0 <= i < b.columns@.len() ==> (#[trigger] b.columns@[i]).row_count == b.columns@[0].row_count
}

/// A payload column is structurally the stored field: same kind and
/// role, the vector dimension the stored list fixes, and the same name.
/// This is the explicit check that a batch lines up with the table's
/// stored schema, column by column in order.
pub open spec fn spec_column_matches_field(c: ColumnPayload, f: EngineField) -> bool {
    &&& c.name@ == f.name@
    &&& match c.field_type {
        lancedb_field_type_t::LanceDBFieldTypeScalar => {
            &&& f.data_type == spec_scalar_engine_type(c.data_type)
            &&& c.dimension == 1
        },
        lancedb_field_type_t::LanceDBFieldTypeVector => {
            &&& 0 < c.dimension <= i32::MAX
            &&& f.data_type == EngineType::FixedSizeList(c.data_type, c.dimension as i32)
        },
    }
}

/// The contents of a payload column have the right container and the
/// exact advertised size: a numeric column's buffer holds
/// `element_count * dimension` values of the kind's width, a text or
/// blob column has one element per row.
pub open spec fn spec_payload_shape_ok(c: ColumnPayload) -> bool {
    if is_fixed_width(c.data_type) {
        c.data matches PayloadData::Raw(buf) && buf@.len() == c.element_count * c.dimension
            * width_of(c.data_type)
    } else if c.data_type is LanceDBFieldTypeString {
        c.data matches PayloadData::Texts(ts) && ts@.len() == c.element_count
    } else {
        c.data matches PayloadData::Blobs(bs) && bs@.len() == c.element_count
    }
}

/// What is wrong with one payload column headed for one stored field, if
/// anything. A vector of a variable-length kind is an unsupported type;
/// a column that is not the stored field is a schema mismatch; a row
/// count differing from the first column's, or contents of the wrong
/// shape, is an invalid argument.
pub open spec fn spec_column_error(
    c: ColumnPayload,
    f: EngineField,
    expected_rows: nat,
) -> Option<BridgeError> {
    if c.field_type is LanceDBFieldTypeVector && !is_fixed_width(c.data_type) {
        Some(BridgeError::UnsupportedType)
    } else if !spec_column_matches_field(c, f) {
        Some(BridgeError::SchemaMismatch)
    } else if c.element_count != expected_rows {
        Some(BridgeError::InvalidArgument)
    } else if !spec_payload_shape_ok(c) {
        Some(BridgeError::InvalidArgument)
    } else {
        None
    }
}

/// The error of a whole row set against a stored schema, if any: a
/// column count differing from the schema's is a schema mismatch;
/// otherwise the first column error in order decides.
pub open spec fn spec_row_set_error(
    p: Seq<ColumnPayload>,
    s: Seq<EngineField>,
    n: int,
) -> Option<BridgeError>
    decreases n,
{
    if p.len() != s.len() {
        Some(BridgeError::SchemaMismatch)
    } else if n <= 0 {
        None
    } else if spec_row_set_error(p, s, n - 1) is Some {
        spec_row_set_error(p, s, n - 1)
    } else {
        spec_column_error(p[n - 1], s[n - 1], spec_expected_rows(p))
    }
}

/// The row count every column must match: the first column's, or 0 for
/// an empty row set.
pub open spec fn spec_expected_rows(p: Seq<ColumnPayload>) -> nat {
    if p.len() == 0 {
        0
    } else {
        p[0].element_count as nat
    }
}

} // verus!
