//! Nearest-neighbour search: the request that goes to a job's index, and the
//! cut of what the index returned.

use crate::chunker::texts_of;
use crate::model::Model;
use crate::registry::has_name;
use crate::registry::named_at;
use crate::registry::JobRegistry;
use crate::transform::RequestError;
use vstd::prelude::*;

verus! {

/// One search in the index of a job.
#[derive(Debug, Clone, PartialEq, Eq)]
pub struct SearchRequest {
    pub job_name: String,
    /// The model of the job, by which the query is embedded.
    pub model: Model,
    pub query: String,
    pub api_key: Option<String>,
    /// Whether every column of a document is returned.
    pub all_columns: bool,
    /// The columns asked for, as they were given.
    pub return_columns: Vec<String>,
    pub num_results: usize,
    /// A predicate that restricts the search. It is handed on as it is: the
    /// caller answers for what it holds.
    pub where_sql: Option<String>,
}

/// Whether `*` is among the columns asked for.
pub open spec fn asks_for_all(columns: Seq<Seq<char>>) -> bool {
    exists|i: int| 0 <= i < columns.len() && #[trigger] columns[i] == "*"@
}

/// Prepares the search for the `num_results` documents of the job
/// `job_name` that are nearest to `query`. The job is looked up first: the
/// query is to be embedded by its model. Every column is returned where `*`
/// is among `return_columns`.
///
/// Fails with `UnknownJob` when no job of the name is registered; else with
/// `NegativeCount` when `num_results` is below zero.
pub fn search(
    registry: &JobRegistry,
    job_name: &str,
    query: &str,
    api_key: Option<String>,
    return_columns: Vec<String>,
    num_results: i32,
    where_sql: Option<String>,
) -> (res: Result<SearchRequest, RequestError>)
    ensures
        res is Ok <==> has_name(registry@, job_name@) && num_results >= 0,
        res == Err::<SearchRequest, RequestError>(RequestError::UnknownJob) <==> !has_name(
            registry@,
            job_name@,
        ),
        res == Err::<SearchRequest, RequestError>(RequestError::NegativeCount) <==> (has_name(
            registry@,
            job_name@,
        ) && num_results < 0),
        res matches Ok(request) ==> {
            &&& request.job_name@ == job_name@
            &&& exists|i: int| #[trigger]
                named_at(registry@, job_name@, i) && request.model@ == registry@[i].model@
            &&& request.query@ == query@
            &&& request.api_key == api_key
            &&& request.all_columns == asks_for_all(texts_of(return_columns@))
            &&& request.return_columns == return_columns
            &&& request.num_results == num_results
            &&& request.where_sql == where_sql
        },
{
    let model = match registry.find(job_name) {
        Some(job) => {
            proof {
                let i = choose|i: int| 0 <= i < registry@.len() && registry@[i] == *job;
                assert(named_at(registry@, job_name@, i));
            }
            Model { source: job.model.source.clone(), name: job.model.name.clone() }
        },
        None => {
            return Err(RequestError::UnknownJob);
        },
    };
    if num_results < 0 {
        return Err(RequestError::NegativeCount);
    }
    let star = String::from_str("*");
    let mut all_columns = false;
    let mut i: usize = 0;
    while i < return_columns.len()
        invariant
            i <= return_columns@.len(),
            star@ == "*"@,
            all_columns == asks_for_all(texts_of(return_columns@).take(i as int)),
        decreases return_columns.len() - i,
    {
        let ghost columns = texts_of(return_columns@);
        let is_star = return_columns[i] == star;
        proof {
            let head = columns.take(i as int);
            let next = columns.take(i + 1);
            if asks_for_all(head) {
                let k = choose|k: int| 0 <= k < head.len() && #[trigger] head[k] == "*"@;
                assert(next[k] == "*"@);
            }
            if is_star {
                assert(next[i as int] == "*"@);
            }
            if asks_for_all(next) {
                let k = choose|k: int| 0 <= k < next.len() && #[trigger] next[k] == "*"@;
                if k < i {
                    assert(head[k] == "*"@);
                }
            }
        }
        all_columns = all_columns || is_star;
        i = i + 1;
    }
    proof {
        assert(texts_of(return_columns@).take(i as int) =~= texts_of(return_columns@));
    }
    Ok(
        SearchRequest {
            job_name: String::from_str(job_name),
            model,
            query: String::from_str(query),
            api_key,
            all_columns,
            return_columns,
            num_results: num_results as usize,
            where_sql,
        },
    )
}

/// The number of documents that a search hands on.
pub open spec fn kept_count(returned: int, num_results: int) -> int {
    if returned <= num_results {
        returned
    } else {
        num_results
    }
}

/// Cuts what the index returned to the number of documents asked for: the
/// first `num_results` stay, in the order in which the index ranked them.
pub fn limit_results<T>(results: Vec<T>, num_results: usize) -> (kept: Vec<T>)
    ensures
        kept@ == results@.take(kept_count(results@.len() as int, num_results as int)),
        kept@.len() <= num_results,
{
    let mut kept = results;
    kept.truncate(num_results);
    proof {
        assert(kept@ =~= results@.take(kept_count(results@.len() as int, num_results as int)));
    }
    kept
}

/// Whether similarities never rise from one document to the next: the
/// best match stands first. A similarity is given as an integer that is
/// larger where the match is better.
pub open spec fn best_first(similarities: Seq<i64>) -> bool {
    forall|i: int, j: int|
        0 <= i < j < similarities.len() ==> similarities[i] >= similarities[j]
}

/// Whether the documents that an index returned are ranked best first.
pub fn is_best_first(similarities: &Vec<i64>) -> (ranked: bool)
    ensures
        ranked == best_first(similarities@),
{
    if similarities.len() < 2 {
        return true;
    }
    let mut i: usize = 1;
    while i < similarities.len()
        invariant
            1 <= i <= similarities@.len(),
            best_first(similarities@.take(i as int)),
        decreases similarities.len() - i,
    {
        if similarities[i - 1] < similarities[i] {
            return false;
        }
        proof {
            let head = similarities@.take(i as int);
            let next = similarities@.take(i + 1);
            assert forall|a: int, b: int| 0 <= a < b < next.len() implies next[a] >= next[b] by {
                if b < i {
                    assert(head[a] >= head[b]);
                } else if a < i - 1 {
                    assert(head[a] >= head[i - 1]);
                }
            }
        }
        i = i + 1;
    }
    proof {
        assert(similarities@.take(i as int) =~= similarities@);
    }
    true
}

/// A ranking stays a ranking when it is cut: the documents that
/// `limit_results` keeps of a ranked answer are ranked best first.
pub proof fn lemma_cut_stays_ranked(similarities: Seq<i64>, num_results: int)
    requires
        best_first(similarities),
        0 <= num_results,
    ensures
        best_first(similarities.take(kept_count(similarities.len() as int, num_results))),
        similarities.take(kept_count(similarities.len() as int, num_results)).len() <= num_results,
{
}

} // verus!
