use vstd::prelude::*;
use crate::errors::BridgeError;

verus! {

/// The closed set of logical data kinds a field or column can carry across
/// the boundary: signed and unsigned integers at 8/16/32/64 bits, three
/// float precisions, UTF-8 text, an opaque byte blob and a millisecond
/// timestamp.
#[allow(non_camel_case_types)]
#[derive(Clone, Copy, Debug, PartialEq, Eq, Structural)]
pub enum lancedb_field_data_type_t {
    LanceDBFieldTypeInt8,
    LanceDBFieldTypeInt16,
    LanceDBFieldTypeInt32,
    LanceDBFieldTypeInt64,
    LanceDBFieldTypeUInt8,
    LanceDBFieldTypeUInt16,
    LanceDBFieldTypeUInt32,
    LanceDBFieldTypeUInt64,
    LanceDBFieldTypeFloat16,
    LanceDBFieldTypeFloat32,
    LanceDBFieldTypeFloat64,
    LanceDBFieldTypeString,
    LanceDBFieldTypeBlob,
    LanceDBFieldTypeTimestamp,
}

/// The role of a field: a single value per row, or a fixed-length vector
/// of one of the numeric kinds per row.
#[allow(non_camel_case_types)]
#[derive(Clone, Copy, Debug, PartialEq, Eq, Structural)]
pub enum lancedb_field_type_t {
    LanceDBFieldTypeScalar,
    LanceDBFieldTypeVector,
}

/// The engine's columnar type system, modeled as far as this layer reads
/// it. A fixed-size-list type carries the kind of its elements and its
/// dimension; every engine type outside the mapped set is `Unsupported`.
#[derive(Clone, Debug, PartialEq, Eq, Structural)]
pub enum EngineType {
    Int8,
    Int16,
    Int32,
    Int64,
    UInt8,
    UInt16,
    UInt32,
    UInt64,
    Float16,
    Float32,
    Float64,
    Utf8,
    Binary,
    TimestampMillisecond,
    FixedSizeList(lancedb_field_data_type_t, i32),
    Unsupported,
}

/// Width in bytes of one value of a fixed-width kind; 0 for the two
/// variable-length kinds (text and blob).
pub open spec fn width_of(k: lancedb_field_data_type_t) -> nat {
    match k {
        lancedb_field_data_type_t::LanceDBFieldTypeInt8 => 1,
        lancedb_field_data_type_t::LanceDBFieldTypeInt16 => 2,
        lancedb_field_data_type_t::LanceDBFieldTypeInt32 => 4,
        lancedb_field_data_type_t::LanceDBFieldTypeInt64 => 8,
        lancedb_field_data_type_t::LanceDBFieldTypeUInt8 => 1,
        lancedb_field_data_type_t::LanceDBFieldTypeUInt16 => 2,
        lancedb_field_data_type_t::LanceDBFieldTypeUInt32 => 4,
        lancedb_field_data_type_t::LanceDBFieldTypeUInt64 => 8,
        lancedb_field_data_type_t::LanceDBFieldTypeFloat16 => 2,
        lancedb_field_data_type_t::LanceDBFieldTypeFloat32 => 4,
        lancedb_field_data_type_t::LanceDBFieldTypeFloat64 => 8,
        lancedb_field_data_type_t::LanceDBFieldTypeString => 0,
        lancedb_field_data_type_t::LanceDBFieldTypeBlob => 0,
        lancedb_field_data_type_t::LanceDBFieldTypeTimestamp => 8,
    }
}

/// A kind whose values take a fixed number of bytes; text and blob do not.
pub open spec fn is_fixed_width(k: lancedb_field_data_type_t) -> bool {
    width_of(k) != 0
}

/// The two element kinds a nearest-neighbor query accepts.
pub open spec fn is_search_float(k: lancedb_field_data_type_t) -> bool {
    ||| k is LanceDBFieldTypeFloat32
    ||| k is LanceDBFieldTypeFloat64
}

/// Width in bytes of one value of `k`, 0 for text and blob.
pub fn byte_width(k: lancedb_field_data_type_t) -> (w: usize)
    ensures
        w == width_of(k),
{
    match k {
        lancedb_field_data_type_t::LanceDBFieldTypeInt8 => 1,
        lancedb_field_data_type_t::LanceDBFieldTypeInt16 => 2,
        lancedb_field_data_type_t::LanceDBFieldTypeInt32 => 4,
        lancedb_field_data_type_t::LanceDBFieldTypeInt64 => 8,
        lancedb_field_data_type_t::LanceDBFieldTypeUInt8 => 1,
        lancedb_field_data_type_t::LanceDBFieldTypeUInt16 => 2,
        lancedb_field_data_type_t::LanceDBFieldTypeUInt32 => 4,
        lancedb_field_data_type_t::LanceDBFieldTypeUInt64 => 8,
        lancedb_field_data_type_t::LanceDBFieldTypeFloat16 => 2,
        lancedb_field_data_type_t::LanceDBFieldTypeFloat32 => 4,
        lancedb_field_data_type_t::LanceDBFieldTypeFloat64 => 8,
        lancedb_field_data_type_t::LanceDBFieldTypeString => 0,
        lancedb_field_data_type_t::LanceDBFieldTypeBlob => 0,
        lancedb_field_data_type_t::LanceDBFieldTypeTimestamp => 8,
    }
}

/// The engine scalar type of each logical kind. Total: every kind has one.
pub open spec fn spec_scalar_engine_type(k: lancedb_field_data_type_t) -> EngineType {
    match k {
        lancedb_field_data_type_t::LanceDBFieldTypeInt8 => EngineType::Int8,
        lancedb_field_data_type_t::LanceDBFieldTypeInt16 => EngineType::Int16,
        lancedb_field_data_type_t::LanceDBFieldTypeInt32 => EngineType::Int32,
        lancedb_field_data_type_t::LanceDBFieldTypeInt64 => EngineType::Int64,
        lancedb_field_data_type_t::LanceDBFieldTypeUInt8 => EngineType::UInt8,
        lancedb_field_data_type_t::LanceDBFieldTypeUInt16 => EngineType::UInt16,
        lancedb_field_data_type_t::LanceDBFieldTypeUInt32 => EngineType::UInt32,
        lancedb_field_data_type_t::LanceDBFieldTypeUInt64 => EngineType::UInt64,
        lancedb_field_data_type_t::LanceDBFieldTypeFloat16 => EngineType::Float16,
        lancedb_field_data_type_t::LanceDBFieldTypeFloat32 => EngineType::Float32,
        lancedb_field_data_type_t::LanceDBFieldTypeFloat64 => EngineType::Float64,
        lancedb_field_data_type_t::LanceDBFieldTypeString => EngineType::Utf8,
        lancedb_field_data_type_t::LanceDBFieldTypeBlob => EngineType::Binary,
        lancedb_field_data_type_t::LanceDBFieldTypeTimestamp => EngineType::TimestampMillisecond,
    }
}

/// The logical kind of an engine scalar type, where one exists.
pub open spec fn spec_kind_of_scalar(t: EngineType) -> Option<lancedb_field_data_type_t> {
    match t {
        EngineType::Int8 => Some(lancedb_field_data_type_t::LanceDBFieldTypeInt8),
        EngineType::Int16 => Some(lancedb_field_data_type_t::LanceDBFieldTypeInt16),
        EngineType::Int32 => Some(lancedb_field_data_type_t::LanceDBFieldTypeInt32),
        EngineType::Int64 => Some(lancedb_field_data_type_t::LanceDBFieldTypeInt64),
        EngineType::UInt8 => Some(lancedb_field_data_type_t::LanceDBFieldTypeUInt8),
        EngineType::UInt16 => Some(lancedb_field_data_type_t::LanceDBFieldTypeUInt16),
        EngineType::UInt32 => Some(lancedb_field_data_type_t::LanceDBFieldTypeUInt32),
        EngineType::UInt64 => Some(lancedb_field_data_type_t::LanceDBFieldTypeUInt64),
        EngineType::Float16 => Some(lancedb_field_data_type_t::LanceDBFieldTypeFloat16),
        EngineType::Float32 => Some(lancedb_field_data_type_t::LanceDBFieldTypeFloat32),
        EngineType::Float64 => Some(lancedb_field_data_type_t::LanceDBFieldTypeFloat64),
        EngineType::Utf8 => Some(lancedb_field_data_type_t::LanceDBFieldTypeString),
        EngineType::Binary => Some(lancedb_field_data_type_t::LanceDBFieldTypeBlob),
        EngineType::TimestampMillisecond => Some(
            lancedb_field_data_type_t::LanceDBFieldTypeTimestamp,
        ),
        EngineType::FixedSizeList(_, _) => None,
        EngineType::Unsupported => None,
    }
}

/// A kind/role/dimension triple that the mapping covers: a scalar of any
/// kind (dimension normalized to 1), or a vector of a fixed-width kind
/// with a positive dimension. Vector-of-text and vector-of-blob are
/// outside the mapping.
pub open spec fn spec_mappable(
    k: lancedb_field_data_type_t,
    r: lancedb_field_type_t,
    dimension: i32,
) -> bool {
    match r {
        lancedb_field_type_t::LanceDBFieldTypeScalar => dimension == 1,
        lancedb_field_type_t::LanceDBFieldTypeVector => is_fixed_width(k) && dimension > 0,
    }
}

/// The engine type of a mappable kind/role/dimension triple.
pub open spec fn spec_engine_type_of(
    k: lancedb_field_data_type_t,
    r: lancedb_field_type_t,
    dimension: i32,
) -> EngineType {
    match r {
        lancedb_field_type_t::LanceDBFieldTypeScalar => spec_scalar_engine_type(k),
        lancedb_field_type_t::LanceDBFieldTypeVector => EngineType::FixedSizeList(k, dimension),
    }
}

/// The kind/role/dimension triple an engine type decodes to, where one
/// exists. Scalars decode with dimension 1; a fixed-size list decodes to a
/// vector of its element kind when that kind is fixed-width and the
/// dimension positive; everything else is outside the mapping.
pub open spec fn spec_triple_of_engine_type(t: EngineType) -> Option<
    (lancedb_field_data_type_t, lancedb_field_type_t, i32),
> {
    match t {
        EngineType::FixedSizeList(k, d) => {
            if is_fixed_width(k) && d > 0 {
                Some((k, lancedb_field_type_t::LanceDBFieldTypeVector, d))
            } else {
                None
            }
        },
        EngineType::Unsupported => None,
        _ => match spec_kind_of_scalar(t) {
            Some(k) => Some((k, lancedb_field_type_t::LanceDBFieldTypeScalar, 1)),
            None => None,
        },
    }
}

/// Translate a kind/role/dimension triple into the engine's type system.
/// Succeeds exactly on the mappable triples; a vector of text or blob is
/// an unsupported type, and any other unmappable input (a non-positive
/// vector dimension, a scalar with a dimension other than 1) is an
/// invalid argument.
pub fn engine_type_of(
    k: lancedb_field_data_type_t,
    r: lancedb_field_type_t,
    dimension: i32,
) -> (res: Result<EngineType, BridgeError>)
    ensures
        res is Ok <==> spec_mappable(k, r, dimension),
        res matches Ok(t) ==> t == spec_engine_type_of(k, r, dimension),
        res matches Err(e) ==> {
            &&& (r is LanceDBFieldTypeVector && !is_fixed_width(k)) <==> e is UnsupportedType
            &&& !(r is LanceDBFieldTypeVector && !is_fixed_width(k)) <==> e is InvalidArgument
        },
{
    match r {
        lancedb_field_type_t::LanceDBFieldTypeScalar => {
            if dimension == 1 {
                Ok(scalar_engine_type(k))
            } else {
                Err(BridgeError::InvalidArgument)
            }
        },
        lancedb_field_type_t::LanceDBFieldTypeVector => {
            if byte_width(k) == 0 {
                Err(BridgeError::UnsupportedType)
            } else if dimension <= 0 {
                Err(BridgeError::InvalidArgument)
            } else {
                Ok(EngineType::FixedSizeList(k, dimension))
            }
        },
    }
}

/// The engine scalar type of a logical kind.
pub fn scalar_engine_type(k: lancedb_field_data_type_t) -> (t: EngineType)
    ensures
        t == spec_scalar_engine_type(k),
{
    match k {
        lancedb_field_data_type_t::LanceDBFieldTypeInt8 => EngineType::Int8,
        lancedb_field_data_type_t::LanceDBFieldTypeInt16 => EngineType::Int16,
        lancedb_field_data_type_t::LanceDBFieldTypeInt32 => EngineType::Int32,
        lancedb_field_data_type_t::LanceDBFieldTypeInt64 => EngineType::Int64,
        lancedb_field_data_type_t::LanceDBFieldTypeUInt8 => EngineType::UInt8,
        lancedb_field_data_type_t::LanceDBFieldTypeUInt16 => EngineType::UInt16,
        lancedb_field_data_type_t::LanceDBFieldTypeUInt32 => EngineType::UInt32,
        lancedb_field_data_type_t::LanceDBFieldTypeUInt64 => EngineType::UInt64,
        lancedb_field_data_type_t::LanceDBFieldTypeFloat16 => EngineType::Float16,
        lancedb_field_data_type_t::LanceDBFieldTypeFloat32 => EngineType::Float32,
        lancedb_field_data_type_t::LanceDBFieldTypeFloat64 => EngineType::Float64,
        lancedb_field_data_type_t::LanceDBFieldTypeString => EngineType::Utf8,
        lancedb_field_data_type_t::LanceDBFieldTypeBlob => EngineType::Binary,
        lancedb_field_data_type_t::LanceDBFieldTypeTimestamp => EngineType::TimestampMillisecond,
    }
}

/// Decode an engine type back into a kind/role/dimension triple. Succeeds
/// exactly where the mapping covers the type; anything else is an
/// unsupported type.
pub fn triple_of_engine_type(t: &EngineType) -> (res: Result<
    (lancedb_field_data_type_t, lancedb_field_type_t, i32),
    BridgeError,
>)
    ensures
        res is Ok <==> spec_triple_of_engine_type(*t) is Some,
        res matches Ok(triple) ==> spec_triple_of_engine_type(*t) == Some(triple),
        res matches Err(e) ==> e is UnsupportedType,
{
    match t {
        EngineType::Int8 => Ok(
            (
                lancedb_field_data_type_t::LanceDBFieldTypeInt8,
                lancedb_field_type_t::LanceDBFieldTypeScalar,
                1,
            ),
        ),
        EngineType::Int16 => Ok(
            (
                lancedb_field_data_type_t::LanceDBFieldTypeInt16,
                lancedb_field_type_t::LanceDBFieldTypeScalar,
                1,
            ),
        ),
        EngineType::Int32 => Ok(
            (
                lancedb_field_data_type_t::LanceDBFieldTypeInt32,
                lancedb_field_type_t::LanceDBFieldTypeScalar,
                1,
            ),
        ),
        EngineType::Int64 => Ok(
            (
                lancedb_field_data_type_t::LanceDBFieldTypeInt64,
                lancedb_field_type_t::LanceDBFieldTypeScalar,
                1,
            ),
        ),
        EngineType::UInt8 => Ok(
            (
                lancedb_field_data_type_t::LanceDBFieldTypeUInt8,
                lancedb_field_type_t::LanceDBFieldTypeScalar,
                1,
            ),
        ),
        EngineType::UInt16 => Ok(
            (
                lancedb_field_data_type_t::LanceDBFieldTypeUInt16,
                lancedb_field_type_t::LanceDBFieldTypeScalar,
                1,
            ),
        ),
        EngineType::UInt32 => Ok(
            (
                lancedb_field_data_type_t::LanceDBFieldTypeUInt32,
                lancedb_field_type_t::LanceDBFieldTypeScalar,
                1,
            ),
        ),
        EngineType::UInt64 => Ok(
            (
                lancedb_field_data_type_t::LanceDBFieldTypeUInt64,
                lancedb_field_type_t::LanceDBFieldTypeScalar,
                1,
            ),
        ),
        EngineType::Float16 => Ok(
            (
                lancedb_field_data_type_t::LanceDBFieldTypeFloat16,
                lancedb_field_type_t::LanceDBFieldTypeScalar,
                1,
            ),
        ),
        EngineType::Float32 => Ok(
            (
                lancedb_field_data_type_t::LanceDBFieldTypeFloat32,
                lancedb_field_type_t::LanceDBFieldTypeScalar,
                1,
            ),
        ),
        EngineType::Float64 => Ok(
            (
                lancedb_field_data_type_t::LanceDBFieldTypeFloat64,
                lancedb_field_type_t::LanceDBFieldTypeScalar,
                1,
            ),
        ),
        EngineType::Utf8 => Ok(
            (
                lancedb_field_data_type_t::LanceDBFieldTypeString,
                lancedb_field_type_t::LanceDBFieldTypeScalar,
                1,
            ),
        ),
        EngineType::Binary => Ok(
            (
                lancedb_field_data_type_t::LanceDBFieldTypeBlob,
                lancedb_field_type_t::LanceDBFieldTypeScalar,
                1,
            ),
        ),
        EngineType::TimestampMillisecond => Ok(
            (
                lancedb_field_data_type_t::LanceDBFieldTypeTimestamp,
                lancedb_field_type_t::LanceDBFieldTypeScalar,
                1,
            ),
        ),
        EngineType::FixedSizeList(k, d) => {
            if byte_width(*k) != 0 && *d > 0 {
                Ok((*k, lancedb_field_type_t::LanceDBFieldTypeVector, *d))
            } else {
                Err(BridgeError::UnsupportedType)
            }
        },
        EngineType::Unsupported => Err(BridgeError::UnsupportedType),
    }
}

/// The mapping is reversible: decoding the engine type of any mappable
/// triple recovers exactly that triple.
pub proof fn lemma_type_mapping_recovers_triple(
    k: lancedb_field_data_type_t,
    r: lancedb_field_type_t,
    dimension: i32,
)
    requires
        spec_mappable(k, r, dimension),
    ensures
        spec_triple_of_engine_type(spec_engine_type_of(k, r, dimension)) == Some(
            (k, r, dimension),
        ),
{
}

/// The mapping is exact: encoding the triple an engine type decodes to
/// yields that engine type back.
pub proof fn lemma_type_mapping_recovers_engine_type(t: EngineType)
    requires
        spec_triple_of_engine_type(t) is Some,
    ensures
        spec_mappable(
            spec_triple_of_engine_type(t)->Some_0.0,
            spec_triple_of_engine_type(t)->Some_0.1,
            spec_triple_of_engine_type(t)->Some_0.2,
        ),
        spec_engine_type_of(
            spec_triple_of_engine_type(t)->Some_0.0,
            spec_triple_of_engine_type(t)->Some_0.1,
            spec_triple_of_engine_type(t)->Some_0.2,
        ) == t,
{
}

} // verus!
