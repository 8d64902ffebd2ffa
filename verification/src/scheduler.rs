//! The cron scheduler's book of jobs.
//!
//! A job pairs a schedule expression with the script text to run on every
//! occurrence of the schedule. The expression is validated when the job is
//! registered, and the text is the one given at registration: what happens to
//! a stored script of the same text afterwards does not reach the job. Each
//! trigger submits the job's text to the dispatcher and returns at once,
//! without waiting for the result, so that a slow script delays no timer.
//! Nothing keeps two triggers of one job from running at the same time.

use crate::dispatcher::{Dispatcher, Ticket};
use crate::error::{notfound_error, ApiError, ApiErrorView};
use crate::validate::{check_cron, cron_syntax_error, objection, rejection, report};
use vstd::prelude::*;
use vstd::string::StringExecFns;

verus! {

/// The identifier of a scheduled job: its position in the book.
pub type JobId = usize;

/// A scheduled job.
#[derive(Debug, PartialEq, Eq)]
pub struct ScheduledJob {
    pub id: JobId,
    pub cron: String,
    pub script: String,
}

/// The mathematical value of a [`ScheduledJob`].
pub struct JobView {
    pub id: JobId,
    pub cron: Seq<char>,
    pub script: Seq<char>,
}

impl View for ScheduledJob {
    type V = JobView;

    open spec fn view(&self) -> JobView {
        JobView { id: self.id, cron: self.cron@, script: self.script@ }
    }
}

/// The jobs of a book in which every job stands at the position that its id
/// names.
pub open spec fn in_order(jobs: Seq<JobView>) -> bool {
    forall|i: int| 0 <= i < jobs.len() ==> (#[trigger] jobs[i]).id == i
}

/// Whether the schedule parser accepts the expression of every job.
pub open spec fn all_valid(jobs: Seq<JobView>) -> bool {
    forall|i: int| 0 <= i < jobs.len() ==> cron_syntax_error((#[trigger] jobs[i]).cron) is None
}

/// The book after a registration whose expression the parser judged as
/// `objection` says: with one more job if there was no objection, unchanged
/// if there was one.
pub open spec fn entered(
    jobs: Seq<JobView>,
    objection: Option<Seq<char>>,
    cron: Seq<char>,
    script: Seq<char>,
) -> Seq<JobView> {
    if objection is None {
        jobs.push(JobView { id: jobs.len() as JobId, cron, script })
    } else {
        jobs
    }
}

/// The message of the failure that a trigger of an unknown job ends in.
pub open spec fn unknown_job() -> Seq<char> {
    "Job not found"@
}

/// The book of scheduled jobs.
pub struct Scheduler {
    jobs: Vec<ScheduledJob>,
}

impl View for Scheduler {
    type V = Seq<JobView>;

    closed spec fn view(&self) -> Seq<JobView> {
        self.jobs@.map_values(|job: ScheduledJob| job@)
    }
}

impl Scheduler {
    /// Whether the book satisfies its invariant.
    pub open spec fn wf(&self) -> bool {
        in_order(self@)
    }

    /// An empty book.
    pub fn new() -> (scheduler: Scheduler)
        ensures
            scheduler@ == Seq::<JobView>::empty(),
            scheduler.wf(),
    {
        let scheduler = Scheduler { jobs: Vec::new() };
        assert(scheduler@ =~= Seq::<JobView>::empty());
        scheduler
    }

    /// Enters a job whose expression has been judged: with `Ok`, the job is
    /// appended and its id returned; with `Err`, the book stays as it is and
    /// the objection is reported as a request error.
    pub fn enter(&mut self, verdict: Result<(), String>, cron: String, script: String) -> (outcome:
        Result<JobId, ApiError>)
        requires
            old(self).wf(),
        ensures
            final(self).wf(),
            final(self)@ == entered(old(self)@, objection(verdict), cron@, script@),
            outcome is Ok <==> verdict is Ok,
            outcome matches Ok(id) ==> id == old(self)@.len(),
            outcome matches Err(e) ==> Some(e@) == rejection(objection(verdict)),
            all_valid(old(self)@) && objection(verdict) == cron_syntax_error(cron@) ==> all_valid(
                final(self)@,
            ),
    {
        let ghost before = self@;
        match report(verdict) {
            Err(e) => Err(e),
            Ok(_) => {
                let id: usize = self.jobs.len();
                let ghost job = JobView { id, cron: cron@, script: script@ };
                self.jobs.push(ScheduledJob { id, cron, script });
                proof {
                    assert(self@ =~= before.push(job));
                    assert forall|i: int| 0 <= i < self@.len() implies (#[trigger] self@[i]).id
                        == i by {
                        if i < before.len() {
                            assert(self@[i] == before[i]);
                        }
                    }
                    if all_valid(before) && objection(verdict) == cron_syntax_error(cron@) {
                        assert forall|i: int| 0 <= i < self@.len() implies cron_syntax_error(
                            (#[trigger] self@[i]).cron,
                        ) is None by {
                            if i < before.len() {
                                assert(self@[i] == before[i]);
                            }
                        }
                    }
                }
                Ok(id)
            },
        }
    }

    /// Registers a job that runs `script` on the schedule `cron`. The
    /// expression is parsed first: if the parser rejects it, no job is
    /// created and the rejection is returned as a request error.
    pub fn register(&mut self, cron: &str, script: &str) -> (outcome: Result<JobId, ApiError>)
        requires
            old(self).wf(),
        ensures
            final(self).wf(),
            final(self)@ == entered(old(self)@, cron_syntax_error(cron@), cron@, script@),
            outcome is Ok <==> cron_syntax_error(cron@) is None,
            outcome matches Ok(id) ==> id == old(self)@.len(),
            outcome matches Err(e) ==> Some(e@) == rejection(cron_syntax_error(cron@)),
            all_valid(old(self)@) ==> all_valid(final(self)@),
    {
        let verdict = check_cron(cron);
        self.enter(verdict, String::from_str(cron), String::from_str(script))
    }

    /// The number of jobs.
    pub fn len(&self) -> (n: usize)
        ensures
            n == self@.len(),
    {
        self.jobs.len()
    }

    /// The job with the given id, if there is one.
    pub fn job(&self, id: JobId) -> (job: Option<&ScheduledJob>)
        ensures
            job is Some <==> id < self@.len(),
            job matches Some(j) ==> j@ == self@[id as int],
    {
        if id < self.jobs.len() {
            Some(&self.jobs[id])
        } else {
            None
        }
    }

    /// Fires the job `id` once: submits its script text to `dispatcher` and
    /// returns the ticket without waiting for the result. Fails with a
    /// not-found error, leaving the dispatcher as it is, if there is no such
    /// job, and as a submission fails if the dispatcher refuses it.
    pub fn trigger(&self, id: JobId, dispatcher: &mut Dispatcher) -> (outcome: Result<
        Ticket,
        ApiError,
    >)
        requires
            old(dispatcher).wf(),
        ensures
            final(dispatcher).wf(),
            id >= self@.len() ==> {
                &&& final(dispatcher)@ == old(dispatcher)@
                &&& outcome matches Err(e)
                &&& e@ == ApiErrorView::NotFoundError(unknown_job())
            },
            id < self@.len() ==> {
                &&& final(dispatcher)@ == old(dispatcher)@.submit(self@[id as int].script)
                &&& outcome is Ok <==> old(dispatcher)@.accepts()
                &&& outcome matches Ok(ticket) ==> ticket == old(dispatcher)@.issued
                &&& outcome matches Err(e) ==> e@ == ApiErrorView::InternalError(
                    old(dispatcher)@.refusal(),
                )
            },
    {
        if id < self.jobs.len() {
            dispatcher.submit(self.jobs[id].script.clone())
        } else {
            Err(notfound_error(String::from_str("Job not found")))
        }
    }
}

} // verus!
