use vstd::prelude::*;
use crate::codec::le_word;
use crate::codec::lemma_le_word_bound;
use crate::codec::lemma_pow256_values;
use crate::codec::pow256;
use crate::codec::words_from_le_bytes;
use crate::errors::BridgeError;
use crate::kinds::lancedb_field_data_type_t;
use crate::kinds::lancedb_field_type_t;
use crate::kinds::EngineType;
use crate::payload::spec_batch_wf;
use crate::payload::BatchColumn;
use crate::payload::ColumnBatch;
use crate::payload::ColumnValues;
use crate::schema::EngineField;
use crate::schema::EngineSchema;

verus! {

/// Everything the convenience creation path needs: the synthesized
/// two-column schema and the seed batch that pre-populates the table.
#[derive(Debug, Clone)]
pub struct CreateTablePlan {
    pub schema: EngineSchema,
    pub seed: ColumnBatch,
}

/// Build the plan for the convenience creation path: a table of two
/// columns — a non-null 32-bit integer id and a nullable float32
/// vector of the given dimension — seeded with ids `0 .. count-1`
/// paired with the successive length-`dimension` chunks of the flat
/// buffer. The buffer must hold exactly `count * dimension` float32
/// bit patterns; a non-positive dimension, a negative count or a
/// buffer of any other size is an invalid argument.
pub fn build_create_table_plan(buf: &Vec<u8>, dimension: i32, count: i32) -> (res: Result<
    CreateTablePlan,
    BridgeError,
>)
    ensures
        res is Ok <==> (dimension > 0 && count >= 0 && buf@.len() == count as nat
            * dimension as nat * 4),
        res matches Err(e) ==> e is InvalidArgument,
        res matches Ok(plan) ==> {
            &&& plan.schema.fields@.len() == 2
            &&& plan.schema.fields@[0].name@ == "id"@
            &&& plan.schema.fields@[0].data_type == EngineType::Int32
            &&& !plan.schema.fields@[0].nullable
            &&& plan.schema.fields@[1].name@ == "vector"@
            &&& plan.schema.fields@[1].data_type == EngineType::FixedSizeList(
                lancedb_field_data_type_t::LanceDBFieldTypeFloat32,
                dimension,
            )
            &&& plan.schema.fields@[1].nullable
            &&& spec_batch_wf(plan.seed)
            &&& plan.seed.columns@.len() == 2
            &&& plan.seed.columns@[0].name@ == "id"@
            &&& plan.seed.columns@[0].data_type
                == lancedb_field_data_type_t::LanceDBFieldTypeInt32
            &&& plan.seed.columns@[0].field_type
                == lancedb_field_type_t::LanceDBFieldTypeScalar
            &&& plan.seed.columns@[0].row_count == count
            &&& plan.seed.columns@[0].values matches ColumnValues::Words(ids) && ids@.len()
                == count && (forall|i: int| 0 <= i < count ==> (#[trigger] ids@[i]) == i)
            &&& plan.seed.columns@[1].name@ == "vector"@
            &&& plan.seed.columns@[1].data_type
                == lancedb_field_data_type_t::LanceDBFieldTypeFloat32
            &&& plan.seed.columns@[1].field_type
                == lancedb_field_type_t::LanceDBFieldTypeVector
            &&& plan.seed.columns@[1].row_count == count
            &&& plan.seed.columns@[1].dimension == dimension
            &&& plan.seed.columns@[1].values matches ColumnValues::Words(vs) && vs@.len()
                == count as nat * dimension as nat && (forall|j: int|
                0 <= j < vs@.len() ==> ((#[trigger] vs@[j]) as nat) == le_word(buf@, j * 4, 4))
        },
{
    if dimension <= 0 || count < 0 {
        return Err(BridgeError::InvalidArgument);
    }
    let dim_usize = dimension as usize;
    let count_usize = count as usize;
    let buf_len = buf.len();
    let total = match count_usize.checked_mul(dim_usize) {
        Some(t) => t,
        None => {
            proof {
                assert(buf_len < count as nat * dimension as nat);
                assert(count as nat * dimension as nat * 4 >= count as nat * dimension as nat)
                    by (nonlinear_arith);
            }
            return Err(BridgeError::InvalidArgument);
        },
    };
    let needed = match total.checked_mul(4) {
        Some(t) => t,
        None => {
            return Err(BridgeError::InvalidArgument);
        },
    };
    if buf_len != needed {
        return Err(BridgeError::InvalidArgument);
    }
    // the two stored fields of the synthesized schema
    let mut fields: Vec<EngineField> = Vec::new();
    fields.push(
        EngineField { name: "id".to_owned(), data_type: EngineType::Int32, nullable: false },
    );
    fields.push(
        EngineField {
            name: "vector".to_owned(),
            data_type: EngineType::FixedSizeList(
                lancedb_field_data_type_t::LanceDBFieldTypeFloat32,
                dimension,
            ),
            nullable: true,
        },
    );
    // the id column: 0 .. count-1
    let mut ids: Vec<u64> = Vec::new();
    let mut i: usize = 0;
    while i < count_usize
        invariant
            count_usize <= 0x7fffffff,
            i <= count_usize,
            ids@.len() == i,
            forall|t: int| 0 <= t < i ==> (#[trigger] ids@[t]) == t,
        decreases count_usize - i,
    {
        ids.push(i as u64);
        i = i + 1;
    }
    // the vector column: the buffer's float32 bit patterns, in order
    let vs = words_from_le_bytes(buf, total, 4);
    proof {
        lemma_pow256_values();
        assert(pow256(0) == 1);
        assert(pow256(1) == 256 * pow256(0));
        assert(pow256(2) == 256 * pow256(1));
        assert(pow256(3) == 256 * pow256(2));
        assert(pow256(4) == 256 * pow256(3));
        assert forall|j: int| 0 <= j < vs@.len() implies ((#[trigger] vs@[j]) as nat) < pow256(
            4,
        ) by {
            assert(j * 4 + 4 <= total * 4) by (nonlinear_arith)
                requires
                    0 <= j < total,
            ;
            lemma_le_word_bound(buf@, j * 4, 4);
        }
        assert forall|t: int| 0 <= t < ids@.len() implies ((#[trigger] ids@[t]) as nat) < pow256(
            4,
        ) by {
            assert(ids@[t] == t);
        }
    }
    let mut columns: Vec<BatchColumn> = Vec::new();
    columns.push(
        BatchColumn {
            name: "id".to_owned(),
            data_type: lancedb_field_data_type_t::LanceDBFieldTypeInt32,
            field_type: lancedb_field_type_t::LanceDBFieldTypeScalar,
            row_count: count_usize,
            dimension: 1,
            values: ColumnValues::Words(ids),
        },
    );
    columns.push(
        BatchColumn {
            name: "vector".to_owned(),
            data_type: lancedb_field_data_type_t::LanceDBFieldTypeFloat32,
            field_type: lancedb_field_type_t::LanceDBFieldTypeVector,
            row_count: count_usize,
            dimension: dim_usize,
            values: ColumnValues::Words(vs),
        },
    );
    proof {
        assert forall|t: int| 0 <= t < columns@.len() implies crate::payload::spec_batch_column_wf(
            #[trigger] columns@[t],
        ) by {
            if t == 0 {
                assert(crate::payload::spec_batch_column_wf(columns@[0]));
            } else {
                assert(crate::payload::spec_batch_column_wf(columns@[1]));
            }
        }
    }
    Ok(
        CreateTablePlan {
            schema: EngineSchema { fields },
            seed: ColumnBatch { columns },
        },
    )
}

} // verus!
