//! Jobs: the binding of a table and its columns to an embedding model, a
//! distance index and a refresh schedule.

use crate::chunker::texts_of;
use crate::chunker::valid_params;
use crate::chunker::ChunkError;
use crate::model::resolvable;
use crate::model::resolves_to;
use crate::model::Model;
use crate::model::ModelError;
use crate::rag::ErrorKind;
use crate::schedule::is_valid_schedule;
use crate::schedule::valid_schedule;
use vstd::prelude::*;

verus! {

/// The distance metric and index structure of a job.
#[derive(Debug, Clone, Copy, PartialEq, Eq, Structural)]
pub enum IndexDist {
    PgvHnswL2,
    PgvHnswIp,
    PgvHnswCosine,
    VscDiskannCosine,
}

/// Where the embeddings of a job are kept: in columns appended to the source
/// table, or in a table of their own that is joined to it.
#[derive(Debug, Clone, Copy, PartialEq, Eq, Structural)]
pub enum TableMethod {
    Append,
    Join,
}

/// Why a job could not be planned.
#[derive(Debug, Clone, Copy, PartialEq, Eq, Structural)]
pub enum JobError {
    /// No column was named.
    NoColumns,
    /// The model identifier does not resolve.
    Model(ModelError),
    /// The schedule is neither the word `realtime` nor a cron expression.
    Schedule,
    /// The chunk size and overlap cannot be used.
    Chunk(ChunkError),
}

impl JobError {
    /// The kind of failure that the error is reported as: an unresolved
    /// model as `Model`, everything else as `Config`.
    pub fn kind(&self) -> (kind: ErrorKind)
        ensures
            kind == (if *self is Model {
                ErrorKind::Model
            } else {
                ErrorKind::Config
            }),
    {
        match self {
            JobError::Model(_) => ErrorKind::Model,
            _ => ErrorKind::Config,
        }
    }
}

/// A registered binding of a table's columns to a model.
#[derive(Debug, Clone, PartialEq, Eq)]
pub struct Job {
    pub name: String,
    pub schema: String,
    pub table: String,
    pub columns: Vec<String>,
    pub primary_key: String,
    pub update_col: Option<String>,
    pub index_dist_type: IndexDist,
    pub model: Model,
    pub table_method: TableMethod,
    pub schedule: String,
}

impl Job {
    /// A job names at least one column and has a schedule.
    pub open spec fn wf(&self) -> bool {
        self.columns@.len() > 0 && valid_schedule(self.schedule@)
    }
}

/// A request to chunk a table into another before a job is registered on
/// the result.
#[derive(Debug, Clone, PartialEq, Eq)]
pub struct ChunkRequest {
    pub input_table: String,
    pub chunk_size: i32,
    pub chunk_overlap: i32,
    pub output_table: String,
}

/// What setting up a table for search takes: an optional chunking, then the
/// registration of the job.
#[derive(Debug, Clone, PartialEq, Eq)]
pub struct TablePlan {
    pub chunking: Option<ChunkRequest>,
    pub job: Job,
}

/// The overlap used where a chunk size is given without one.
pub const DEFAULT_CHUNK_OVERLAP: i32 = 200;

/// The overlap that a request asks for.
pub open spec fn overlap_or_default(chunk_overlap: Option<i32>) -> i32 {
    match chunk_overlap {
        Some(overlap) => overlap,
        None => DEFAULT_CHUNK_OVERLAP,
    }
}

/// The name of the table that holds the chunks of `table`.
pub open spec fn chunked_name(table: Seq<char>) -> Seq<char> {
    table + "_chunked"@
}

/// The text that an optional string holds.
pub open spec fn text_of(s: Option<String>) -> Option<Seq<char>> {
    match s {
        Some(s) => Some(s@),
        None => None,
    }
}

/// Plans the setup of `source_table` for search under the job `job_name`.
///
/// Everything is checked before anything is planned. The plan fails with
/// `NoColumns` when no column is named; else with `Model` when `transformer`
/// does not resolve; else with `Schedule` when `schedule` is neither the word
/// `realtime` nor a cron expression of five fields; else with `Chunk` when a
/// chunk size is given and it and
/// the overlap (200 where none is given) do not satisfy
/// `0 <= overlap < size`. Otherwise: with a chunk size, the table is to be
/// chunked into `<source_table>_chunked` and the job is registered on that table;
/// without one, the job is registered on `source_table` itself.
pub fn table(
    source_table: &str,
    columns: Vec<String>,
    job_name: &str,
    primary_key: &str,
    schema: &str,
    update_col: String,
    index_dist_type: IndexDist,
    transformer: &str,
    chunk_size: Option<i32>,
    chunk_overlap: Option<i32>,
    table_method: TableMethod,
    schedule: &str,
) -> (res: Result<TablePlan, JobError>)
    ensures
        res is Ok <==> (columns@.len() > 0 && resolvable(transformer@) && valid_schedule(schedule@)
            && (chunk_size is Some ==> valid_params(
            chunk_size->0 as int,
            overlap_or_default(chunk_overlap) as int,
        ))),
        res == Err::<TablePlan, JobError>(JobError::Schedule) <==> (columns@.len() > 0
            && resolvable(transformer@) && !valid_schedule(schedule@)),
        res == Err::<TablePlan, JobError>(JobError::NoColumns) <==> columns@.len() == 0,
        res == Err::<TablePlan, JobError>(JobError::Model(ModelError::InvalidFormat)) <==> (
        columns@.len() > 0 && !resolvable(transformer@)),
        res == Err::<TablePlan, JobError>(JobError::Chunk(ChunkError::OverlapNotBelowSize)) <==> (
        columns@.len() > 0 && resolvable(transformer@) && valid_schedule(schedule@)
            && chunk_size is Some && !valid_params(
            chunk_size->0 as int,
            overlap_or_default(chunk_overlap) as int,
        )),
        res matches Ok(plan) ==> {
            &&& plan.job.wf()
            &&& plan.job.name@ == job_name@
            &&& plan.job.schema@ == schema@
            &&& plan.job.columns == columns
            &&& plan.job.primary_key@ == primary_key@
            &&& plan.job.update_col == Some(update_col)
            &&& plan.job.index_dist_type == index_dist_type
            &&& resolves_to(transformer@, plan.job.model@)
            &&& plan.job.table_method == table_method
            &&& plan.job.schedule@ == schedule@
            &&& match chunk_size {
                Some(size) => {
                    &&& plan.job.table@ == chunked_name(source_table@)
                    &&& plan.chunking matches Some(request)
                    &&& request.input_table@ == source_table@
                    &&& request.chunk_size == size
                    &&& request.chunk_overlap == overlap_or_default(chunk_overlap)
                    &&& request.output_table@ == chunked_name(source_table@)
                },
                None => plan.job.table@ == source_table@ && plan.chunking is None,
            }
        },
{
    if columns.len() == 0 {
        return Err(JobError::NoColumns);
    }
    let model = match Model::new(transformer) {
        Ok(model) => model,
        Err(e) => {
            return Err(JobError::Model(e));
        },
    };
    if !is_valid_schedule(schedule) {
        return Err(JobError::Schedule);
    }
    let mut chunking: Option<ChunkRequest> = None;
    let mut processed_table = String::from_str(source_table);
    if let Some(size) = chunk_size {
        let overlap: i32 = match chunk_overlap {
            Some(overlap) => overlap,
            None => DEFAULT_CHUNK_OVERLAP,
        };
        if overlap < 0 || overlap >= size {
            return Err(JobError::Chunk(ChunkError::OverlapNotBelowSize));
        }
        processed_table = String::from_str(source_table).concat("_chunked");
        chunking = Some(
            ChunkRequest {
                input_table: String::from_str(source_table),
                chunk_size: size,
                chunk_overlap: overlap,
                output_table: processed_table.clone(),
            },
        );
    }
    Ok(
        TablePlan {
            chunking,
            job: Job {
                name: String::from_str(job_name),
                schema: String::from_str(schema),
                table: processed_table,
                columns,
                primary_key: String::from_str(primary_key),
                update_col: Some(update_col),
                index_dist_type,
                model,
                table_method,
                schedule: String::from_str(schedule),
            },
        },
    )
}

/// The job of a chat agent: one column of `table_name` to chat with, no
/// update column.
///
/// Fails with `Model` when `transformer` does not resolve; else with
/// `Schedule` when `schedule` is neither the word `realtime` nor a cron
/// expression of five fields.
pub fn init_rag(
    agent_name: &str,
    table_name: &str,
    unique_record_id: &str,
    column: &str,
    schema: &str,
    index_dist_type: IndexDist,
    transformer: &str,
    table_method: TableMethod,
    schedule: &str,
) -> (res: Result<Job, JobError>)
    ensures
        res is Ok <==> resolvable(transformer@) && valid_schedule(schedule@),
        res == Err::<Job, JobError>(JobError::Model(ModelError::InvalidFormat)) <==> !resolvable(
            transformer@,
        ),
        res == Err::<Job, JobError>(JobError::Schedule) <==> (resolvable(transformer@)
            && !valid_schedule(schedule@)),
        res matches Ok(job) ==> {
            &&& job.wf()
            &&& job.name@ == agent_name@
            &&& job.schema@ == schema@
            &&& job.table@ == table_name@
            &&& texts_of(job.columns@) == seq![column@]
            &&& job.primary_key@ == unique_record_id@
            &&& job.update_col is None
            &&& job.index_dist_type == index_dist_type
            &&& resolves_to(transformer@, job.model@)
            &&& job.table_method == table_method
            &&& job.schedule@ == schedule@
        },
{
    let model = match Model::new(transformer) {
        Ok(model) => model,
        Err(e) => {
            return Err(JobError::Model(e));
        },
    };
    if !is_valid_schedule(schedule) {
        return Err(JobError::Schedule);
    }
    let mut columns: Vec<String> = Vec::new();
    columns.push(String::from_str(column));
    proof {
        assert(texts_of(columns@) =~= seq![column@]);
    }
    Ok(
        Job {
            name: String::from_str(agent_name),
            schema: String::from_str(schema),
            table: String::from_str(table_name),
            columns,
            primary_key: String::from_str(unique_record_id),
            update_col: None,
            index_dist_type,
            model,
            table_method,
            schedule: String::from_str(schedule),
        },
    )
}

} // verus!
