use vstd::prelude::*;
use crate::errors::BridgeError;
use crate::kinds::EngineType;
use crate::kinds::lancedb_field_data_type_t;
use crate::kinds::lancedb_field_type_t;
use crate::kinds::is_fixed_width;
use crate::kinds::spec_scalar_engine_type;
use crate::kinds::byte_width;
use crate::kinds::scalar_engine_type;

verus! {

/// One field of a schema as the caller describes it: a name, a data
/// kind, a scalar or vector role, an advisory index request, the vector
/// dimension (meaningful for the vector role only) and nullability.
#[derive(Debug, Clone)]
pub struct FieldDescriptor {
    pub name: String,
    pub data_type: lancedb_field_data_type_t,
    pub field_type: lancedb_field_type_t,
    pub create_index: bool,
    pub dimension: i32,
    pub nullable: bool,
}

/// An ordered sequence of field descriptors. Field names must be unique
/// within one schema; the builder below rejects a schema that breaks
/// this.
#[derive(Debug, Clone)]
pub struct SchemaDescriptor {
    pub fields: Vec<FieldDescriptor>,
}

/// One field of a schema in the engine's type system.
#[derive(Debug, Clone)]
pub struct EngineField {
    pub name: String,
    pub data_type: EngineType,
    pub nullable: bool,
}

/// A schema as the engine stores it: the ordered fields of a table.
#[derive(Debug, Clone)]
pub struct EngineSchema {
    pub fields: Vec<EngineField>,
}

/// The engine type a descriptor translates to, ignoring whether the
/// descriptor is valid: a scalar maps to its kind's engine scalar type,
/// a vector to a fixed-size list of its kind.
pub open spec fn spec_field_engine_type(f: FieldDescriptor) -> EngineType {
    match f.field_type {
        lancedb_field_type_t::LanceDBFieldTypeScalar => spec_scalar_engine_type(f.data_type),
        lancedb_field_type_t::LanceDBFieldTypeVector => EngineType::FixedSizeList(
            f.data_type,
            f.dimension,
        ),
    }
}

/// What is wrong with field `i` of a descriptor sequence, if anything:
/// a vector of a variable-length kind is an unsupported type; a vector
/// with a non-positive dimension, or a name already used by an earlier
/// field, is an invalid argument.
pub open spec fn spec_field_error(fields: Seq<FieldDescriptor>, i: int) -> Option<BridgeError> {
    if fields[i].field_type is LanceDBFieldTypeVector && !is_fixed_width(fields[i].data_type) {
        Some(BridgeError::UnsupportedType)
    } else if fields[i].field_type is LanceDBFieldTypeVector && fields[i].dimension <= 0 {
        Some(BridgeError::InvalidArgument)
    } else if exists|j: int| 0 <= j < i && fields[j].name@ == fields[i].name@ {
        Some(BridgeError::InvalidArgument)
    } else {
        None
    }
}

/// The first field error among fields `0 .. n`, if any.
pub open spec fn spec_schema_error(fields: Seq<FieldDescriptor>, n: int) -> Option<BridgeError>
    decreases n,
{
    if n <= 0 {
        None
    } else if spec_schema_error(fields, n - 1) is Some {
        spec_schema_error(fields, n - 1)
    } else {
        spec_field_error(fields, n - 1)
    }
}

/// A schema whose first `n` fields carry no error has none among any
/// shorter prefix either.
proof fn lemma_schema_error_prefix(fields: Seq<FieldDescriptor>, m: int, n: int)
    requires
        0 <= m <= n,
        spec_schema_error(fields, n) is None,
    ensures
        spec_schema_error(fields, m) is None,
    decreases n,
{
    if m < n {
        lemma_schema_error_prefix(fields, m, n - 1);
    }
}

/// The first field error decides the whole schema's error, however many
/// clean fields follow it.
proof fn lemma_schema_error_propagates(fields: Seq<FieldDescriptor>, i: int, n: int)
    requires
        0 <= i < n,
        spec_schema_error(fields, i) is None,
        spec_field_error(fields, i) is Some,
    ensures
        spec_schema_error(fields, n) == spec_field_error(fields, i),
    decreases n,
{
    if i + 1 < n {
        lemma_schema_error_propagates(fields, i, n - 1);
    }
}

/// Translate a caller-described schema into the engine's type system,
/// field by field. Succeeds exactly when every field is valid and no
/// name repeats; on success the result has the same fields in the same
/// order, each with its translated type, and the names are unique. On
/// failure the error is the first field's error in schema order.
pub fn build_engine_schema(schema: &SchemaDescriptor) -> (res: Result<EngineSchema, BridgeError>)
    ensures
        res is Ok <==> spec_schema_error(schema.fields@, schema.fields@.len() as int) is None,
        res matches Ok(s) ==> {
            &&& s.fields@.len() == schema.fields@.len()
            &&& forall|i: int|
                0 <= i < s.fields@.len() ==> {
                    &&& (#[trigger] s.fields@[i]).name@ == schema.fields@[i].name@
                    &&& s.fields@[i].data_type == spec_field_engine_type(schema.fields@[i])
                    &&& s.fields@[i].nullable == schema.fields@[i].nullable
                }
            &&& forall|i: int, j: int|
                0 <= i < j < s.fields@.len() ==> (#[trigger] s.fields@[i]).name@ != (
                #[trigger] s.fields@[j]).name@
        },
        res matches Err(e) ==> spec_schema_error(schema.fields@, schema.fields@.len() as int)
            == Some(e),
{
    let ghost fields = schema.fields@;
    let n = schema.fields.len();
    let mut out: Vec<EngineField> = Vec::new();
    let mut i: usize = 0;
    while i < n
        invariant
            n == fields.len(),
            fields == schema.fields@,
            i <= n,
            spec_schema_error(fields, i as int) is None,
            out@.len() == i,
            forall|t: int|
                0 <= t < i ==> {
                    &&& (#[trigger] out@[t]).name@ == fields[t].name@
                    &&& out@[t].data_type == spec_field_engine_type(fields[t])
                    &&& out@[t].nullable == fields[t].nullable
                },
        decreases n - i,
    {
        let f = &schema.fields[i];
        let is_vector = match f.field_type {
            lancedb_field_type_t::LanceDBFieldTypeScalar => false,
            lancedb_field_type_t::LanceDBFieldTypeVector => true,
        };
        if is_vector && byte_width(f.data_type) == 0 {
            proof {
                assert(spec_field_error(fields, i as int) == Some(BridgeError::UnsupportedType));
                lemma_schema_error_propagates(fields, i as int, n as int);
            }
            return Err(BridgeError::UnsupportedType);
        }
        if is_vector && f.dimension <= 0 {
            proof {
                assert(spec_field_error(fields, i as int) == Some(BridgeError::InvalidArgument));
                lemma_schema_error_propagates(fields, i as int, n as int);
            }
            return Err(BridgeError::InvalidArgument);
        }
        // reject a name already used by an earlier field
        let mut j: usize = 0;
        while j < i
            invariant
                i < n,
                n == fields.len(),
                fields == schema.fields@,
                *f == fields[i as int],
                spec_schema_error(fields, i as int) is None,
                fields[i as int].field_type is LanceDBFieldTypeVector ==> is_fixed_width(
                    fields[i as int].data_type,
                ) && fields[i as int].dimension > 0,
                out@.len() == i,
                forall|t: int| 0 <= t < i ==> (#[trigger] out@[t]).name@ == fields[t].name@,
                j <= i,
                forall|t: int| 0 <= t < j ==> (#[trigger] fields[t]).name@ != fields[i as int].name@,
            decreases i - j,
        {
            if out[j].name == f.name {
                proof {
                    assert(fields[j as int].name@ == fields[i as int].name@);
                    assert(spec_field_error(fields, i as int) == Some(BridgeError::InvalidArgument));
                    lemma_schema_error_propagates(fields, i as int, n as int);
                }
                return Err(BridgeError::InvalidArgument);
            }
            j = j + 1;
        }
        let data_type = match f.field_type {
            lancedb_field_type_t::LanceDBFieldTypeScalar => scalar_engine_type(f.data_type),
            lancedb_field_type_t::LanceDBFieldTypeVector => EngineType::FixedSizeList(
                f.data_type,
                f.dimension,
            ),
        };
        let ef = EngineField { name: f.name.clone(), data_type, nullable: f.nullable };
        out.push(ef);
        proof {
            assert(spec_field_error(fields, i as int) is None);
            assert(spec_schema_error(fields, i as int + 1) is None);
        }
        i = i + 1;
    }
    proof {
        assert forall|a: int, b: int|
            0 <= a < b < out@.len() implies (#[trigger] out@[a]).name@ != (
        #[trigger] out@[b]).name@ by {
            lemma_schema_error_prefix(fields, b + 1, n as int);
            assert(spec_schema_error(fields, b + 1) is None);
            assert(spec_field_error(fields, b) is None);
            assert(!(exists|j: int| 0 <= j < b && fields[j].name@ == fields[b].name@));
            assert(fields[a].name@ != fields[b].name@);
        }
    }
    Ok(EngineSchema { fields: out })
}

/// The schema translation is reversible: decoding the engine type of
/// any valid field descriptor recovers exactly the kind and role it was
/// encoded from, with the vector dimension kept and a scalar's
/// normalized to 1.
pub proof fn lemma_field_translation_reversible(f: FieldDescriptor)
    requires
        f.field_type is LanceDBFieldTypeVector ==> is_fixed_width(f.data_type) && f.dimension
            > 0,
    ensures
        crate::kinds::spec_triple_of_engine_type(spec_field_engine_type(f)) == Some(
            (
                f.data_type,
                f.field_type,
                if f.field_type is LanceDBFieldTypeVector {
                    f.dimension
                } else {
                    1i32
                },
            ),
        ),
{
}

/// Find the first field with the given name.
pub fn find_field(schema: &EngineSchema, name: &String) -> (r: Option<usize>)
    ensures
        r is Some <==> exists|i: int|
            0 <= i < schema.fields@.len() && (#[trigger] schema.fields@[i]).name@ == name@,
        r matches Some(i) ==> {
            &&& i < schema.fields@.len()
            &&& schema.fields@[i as int].name@ == name@
            &&& forall|j: int| 0 <= j < i ==> (#[trigger] schema.fields@[j]).name@ != name@
        },
{
    let n = schema.fields.len();
    let mut i: usize = 0;
    while i < n
        invariant
            n == schema.fields@.len(),
            i <= n,
            forall|j: int| 0 <= j < i ==> (#[trigger] schema.fields@[j]).name@ != name@,
        decreases n - i,
    {
        if schema.fields[i].name == *name {
            return Some(i);
        }
        i = i + 1;
    }
    None
}

} // verus!
