//! The set of registered jobs, keyed by name.
//!
//! Registering under a name that is taken replaces the job of that name in
//! place: a name never stands for two jobs.

use crate::job::IndexDist;
use crate::job::Job;
use crate::job::JobError;
use crate::job::TableMethod;
use crate::model::Model;
use crate::schedule::is_valid_schedule;
use crate::schedule::valid_schedule;
use vstd::prelude::*;

verus! {

/// What a registration did.
#[derive(Debug, Clone, Copy, PartialEq, Eq, Structural)]
pub enum Registered {
    /// The name was new: the job was added behind the others.
    Created,
    /// The name was taken: the job replaced the one of that name.
    Updated,
}

/// The registered jobs, in the order in which their names were first
/// registered.
pub struct JobRegistry {
    jobs: Vec<Job>,
}

/// Whether the job at `i` is the job called `name`.
pub open spec fn named_at(jobs: Seq<Job>, name: Seq<char>, i: int) -> bool {
    0 <= i < jobs.len() && jobs[i].name@ == name
}

/// Whether some job is called `name`.
pub open spec fn has_name(jobs: Seq<Job>, name: Seq<char>) -> bool {
    exists|i: int| named_at(jobs, name, i)
}

/// Whether no two jobs share a name.
pub open spec fn names_distinct(jobs: Seq<Job>) -> bool {
    forall|i: int, j: int|
        0 <= i < j < jobs.len() ==> (#[trigger] jobs[i]).name@ != (#[trigger] jobs[j]).name@
}

/// The sentence that confirms a registration.
pub open spec fn confirmation(job_name: Seq<char>, updated: bool) -> Seq<char> {
    if updated {
        "Successfully updated job: "@ + job_name
    } else {
        "Successfully created job: "@ + job_name
    }
}

/// Whether `job` binds these columns of this table to this model.
pub open spec fn describes(
    job: Job,
    schema: Seq<char>,
    table: Seq<char>,
    columns: Vec<String>,
    primary_key: Seq<char>,
    update_col: Option<String>,
    index_dist_type: IndexDist,
    model: Model,
    table_method: TableMethod,
    schedule: Seq<char>,
) -> bool {
    &&& job.wf()
    &&& job.schema@ == schema
    &&& job.table@ == table
    &&& job.columns == columns
    &&& job.primary_key@ == primary_key
    &&& job.update_col == update_col
    &&& job.index_dist_type == index_dist_type
    &&& job.model@ == model@
    &&& job.table_method == table_method
    &&& job.schedule@ == schedule
}

impl JobRegistry {
    /// The jobs, in registration order.
    pub closed spec fn view(&self) -> Seq<Job> {
        self.jobs@
    }

    /// No two registered jobs share a name.
    pub open spec fn wf(&self) -> bool {
        names_distinct(self@)
    }

    /// A registry without jobs.
    pub fn new() -> (registry: JobRegistry)
        ensures
            registry.wf(),
            registry@ == Seq::<Job>::empty(),
    {
        JobRegistry { jobs: Vec::new() }
    }

    /// Number of registered jobs.
    pub fn len(&self) -> (n: usize)
        ensures
            n == self@.len(),
    {
        self.jobs.len()
    }

    /// Position of the job called `name`, if there is one.
    pub fn position(&self, name: &str) -> (found: Option<usize>)
        ensures
            found is Some <==> has_name(self@, name@),
            found matches Some(i) ==> named_at(self@, name@, i as int) && forall|j: int|
                0 <= j < i ==> !named_at(self@, name@, j),
    {
        let wanted = String::from_str(name);
        let mut i: usize = 0;
        while i < self.jobs.len()
            invariant
                i <= self.jobs@.len(),
                wanted@ == name@,
                forall|j: int| 0 <= j < i ==> !named_at(self@, name@, j),
            decreases self.jobs.len() - i,
        {
            if self.jobs[i].name == wanted {
                assert(named_at(self@, name@, i as int));
                return Some(i);
            }
            i = i + 1;
        }
        None
    }

    /// The job called `name`, if there is one.
    pub fn find(&self, name: &str) -> (found: Option<&Job>)
        ensures
            found is Some <==> has_name(self@, name@),
            found matches Some(job) ==> job.name@ == name@ && self@.contains(*job),
    {
        match self.position(name) {
            Some(i) => {
                assert(self@[i as int] == self.jobs@[i as int]);
                Some(&self.jobs[i])
            },
            None => None,
        }
    }

    /// Registers `job`. Where a job of its name is registered already, the
    /// new one takes its place and the others stay as they are; else the new
    /// one is added behind the others.
    pub fn register(&mut self, job: Job) -> (outcome: Registered)
        requires
            old(self).wf(),
        ensures
            final(self).wf(),
            outcome == Registered::Updated <==> has_name(old(self)@, job.name@),
            outcome == Registered::Updated ==> exists|i: int|
                named_at(old(self)@, job.name@, i) && final(self)@ == old(self)@.update(i, job),
            outcome == Registered::Created ==> final(self)@ == old(self)@.push(job),
            has_name(final(self)@, job.name@),
    {
        let found = self.position(job.name.as_str());
        let ghost before = self@;
        let ghost name = job.name@;
        match found {
            Some(i) => {
                self.jobs.set(i, job);
                proof {
                    assert(self@ == before.update(i as int, job));
                    assert(named_at(before, name, i as int));
                    assert(named_at(self@, name, i as int));
                }
                Registered::Updated
            },
            None => {
                self.jobs.push(job);
                proof {
                    assert(self@ == before.push(job));
                    assert forall|a: int, b: int| 0 <= a < b < self@.len() implies (
                    #[trigger] self@[a]).name@ != (#[trigger] self@[b]).name@ by {
                        if b == before.len() {
                            assert(!named_at(before, name, a));
                        }
                    }
                    assert(named_at(self@, name, before.len() as int));
                }
                Registered::Created
            },
        }
    }

    /// Registers the job `job_name` on the columns of `schema.table`, to be
    /// embedded by `model`.
    ///
    /// Fails, and leaves the registry as it was, with `NoColumns` when no
    /// column is named; else with `Schedule` when `schedule` is neither the
    /// word `realtime` nor a cron expression of five fields. Otherwise the
    /// job is registered as `register` says, and the result confirms whether
    /// its name was new or taken.
    pub fn init_table(
        &mut self,
        job_name: &str,
        schema: &str,
        table: &str,
        columns: Vec<String>,
        primary_key: &str,
        update_col: Option<String>,
        index_dist_type: IndexDist,
        model: &Model,
        table_method: TableMethod,
        schedule: &str,
    ) -> (res: Result<String, JobError>)
        requires
            old(self).wf(),
        ensures
            final(self).wf(),
            res is Ok <==> columns@.len() > 0 && valid_schedule(schedule@),
            res == Err::<String, JobError>(JobError::NoColumns) <==> columns@.len() == 0,
            res == Err::<String, JobError>(JobError::Schedule) <==> (columns@.len() > 0
                && !valid_schedule(schedule@)),
            res is Err ==> final(self)@ == old(self)@,
            res matches Ok(message) ==> {
                &&& message@ == confirmation(job_name@, has_name(old(self)@, job_name@))
                &&& exists|i: int|
                    {
                        &&& #[trigger] named_at(final(self)@, job_name@, i)
                        &&& describes(
                            final(self)@[i],
                            schema@,
                            table@,
                            columns,
                            primary_key@,
                            update_col,
                            index_dist_type,
                            *model,
                            table_method,
                            schedule@,
                        )
                        &&& if has_name(old(self)@, job_name@) {
                            named_at(old(self)@, job_name@, i) && final(self)@ == old(self)@.update(
                                i,
                                final(self)@[i],
                            )
                        } else {
                            final(self)@ == old(self)@.push(final(self)@[i])
                        }
                    }
            },
    {
        if columns.len() == 0 {
            return Err(JobError::NoColumns);
        }
        if !is_valid_schedule(schedule) {
            return Err(JobError::Schedule);
        }
        let job = Job {
            name: String::from_str(job_name),
            schema: String::from_str(schema),
            table: String::from_str(table),
            columns,
            primary_key: String::from_str(primary_key),
            update_col,
            index_dist_type,
            model: Model { source: model.source.clone(), name: model.name.clone() },
            table_method,
            schedule: String::from_str(schedule),
        };
        let ghost before = self@;
        let outcome = self.register(job);
        proof {
            if outcome == Registered::Updated {
                let i = choose|i: int|
                    named_at(before, job.name@, i) && self@ == before.update(i, job);
                assert(named_at(self@, job_name@, i));
                assert(self@[i] == job);
            } else {
                assert(named_at(self@, job_name@, before.len() as int));
                assert(self@[before.len() as int] == job);
            }
        }
        let message = match outcome {
            Registered::Created => String::from_str("Successfully created job: ").concat(job_name),
            Registered::Updated => String::from_str("Successfully updated job: ").concat(job_name),
        };
        Ok(message)
    }
}

} // verus!
