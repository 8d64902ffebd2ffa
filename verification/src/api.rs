//! The engine's interface: submitting, running, listing and deleting scripts.
//!
//! A submission is validated in full before anything is stored: a script
//! text or a schedule expression that its parser rejects leaves the registry
//! and the book of jobs exactly as they were.

use crate::dispatcher::{Dispatcher, DispatcherView, Ticket};
use crate::error::{badrequest_error, notfound_error, ApiError, ApiErrorView};
use crate::ids::{fresh_id, hyphenated_text, id_text, is_random_form, ScriptId};
use crate::registry::{entry_views, lists_entries, Registry, ScriptTable};
use crate::scheduler::{all_valid, entered, in_order, JobId, JobView, Scheduler};
use crate::validate::{
    check_cron,
    check_script,
    cron_syntax_error,
    failure,
    objection,
    script_syntax_error,
};
use vstd::prelude::*;
use vstd::string::StringExecFns;

verus! {

/// A submission: a script text and, optionally, the schedule on which to run
/// it again and again.
#[derive(Debug, Clone, PartialEq, Eq)]
pub struct ScriptRequest {
    pub cron: Option<String>,
    pub script: String,
}

/// The mathematical value of a [`ScriptRequest`].
pub struct ScriptRequestView {
    pub cron: Option<Seq<char>>,
    pub script: Seq<char>,
}

impl View for ScriptRequest {
    type V = ScriptRequestView;

    open spec fn view(&self) -> ScriptRequestView {
        ScriptRequestView {
            cron: match self.cron {
                Some(expr) => Some(expr@),
                None => None,
            },
            script: self.script@,
        }
    }
}

/// A stored script as it is reported: its id and its text.
#[derive(Debug, Clone, PartialEq, Eq)]
pub struct ScriptResponse {
    pub id: ScriptId,
    pub script: String,
}

impl View for ScriptResponse {
    type V = (ScriptId, Seq<char>);

    open spec fn view(&self) -> (ScriptId, Seq<char>) {
        (self.id, self.script@)
    }
}

/// The answer to an accepted submission: the id that the script was stored
/// under, the submission itself, and the job that was registered for its
/// schedule, if it has one.
#[derive(Debug, Clone, PartialEq, Eq)]
pub struct ScriptPostResponse {
    pub id: ScriptId,
    pub script: ScriptRequest,
    pub job: Option<JobId>,
}

/// Everything the engine holds.
pub struct AppState {
    pub scripts: Registry,
    pub dispatcher: Dispatcher,
    pub scheduler: Scheduler,
}

/// The mathematical value of an [`AppState`].
pub struct AppStateView {
    pub scripts: ScriptTable,
    pub dispatcher: DispatcherView,
    pub jobs: Seq<JobView>,
}

impl View for AppState {
    type V = AppStateView;

    open spec fn view(&self) -> AppStateView {
        AppStateView {
            scripts: self.scripts@,
            dispatcher: self.dispatcher@,
            jobs: self.scheduler@,
        }
    }
}

/// The failure that a submission ends in, given what the parsers object to
/// in its script text and, if it has one, in its schedule expression. The
/// script is judged first.
pub open spec fn admission(
    script_objection: Option<Seq<char>>,
    cron_objection: Option<Option<Seq<char>>>,
) -> Option<ApiErrorView> {
    match script_objection {
        Some(description) => Some(ApiErrorView::RequestError(description)),
        None => match cron_objection {
            Some(Some(description)) => Some(ApiErrorView::RequestError(description)),
            _ => None,
        },
    }
}

/// What the schedule parser objects to in the expression of `request`, if the
/// request has one.
pub open spec fn cron_objection(request: ScriptRequestView) -> Option<Option<Seq<char>>> {
    match request.cron {
        Some(expr) => Some(cron_syntax_error(expr)),
        None => None,
    }
}

/// The objections that a schedule verdict carries, if there is a verdict.
pub open spec fn objections(verdict: Option<Result<(), String>>) -> Option<Option<Seq<char>>> {
    match verdict {
        Some(v) => Some(objection(v)),
        None => None,
    }
}

/// The message of the failure to run a script that is not stored.
pub open spec fn run_not_found(id: ScriptId) -> Seq<char> {
    "Script id "@ + hyphenated_text(id) + " not found"@
}

/// The message of the failure to delete a script that is not stored.
pub open spec fn delete_not_found(id: ScriptId) -> Seq<char> {
    "Script not found: "@ + hyphenated_text(id)
}

impl AppStateView {
    /// The invariant of the engine's state.
    pub open spec fn wf(self) -> bool {
        &&& self.scripts.dom().finite()
        &&& self.dispatcher.wf()
        &&& in_order(self.jobs)
    }

    /// The state after `request` has been stored under `id`: the text is in
    /// the registry, and if the request has a schedule, a job is in the book.
    pub open spec fn stored(self, id: ScriptId, request: ScriptRequestView) -> AppStateView {
        AppStateView {
            scripts: self.scripts.insert(id, request.script),
            dispatcher: self.dispatcher,
            jobs: match request.cron {
                Some(expr) => entered(self.jobs, None, expr, request.script),
                None => self.jobs,
            },
        }
    }

    /// The job that is registered when `request` is stored: the next one of
    /// the book if the request has a schedule, none if it has not.
    pub open spec fn job_of(self, request: ScriptRequestView) -> Option<JobId> {
        match request.cron {
            Some(_) => Some(self.jobs.len() as JobId),
            None => None,
        }
    }

    /// The state after a request to run the script `id`: if the script is
    /// stored, its text has been submitted to the dispatcher.
    pub open spec fn ran(self, id: ScriptId) -> AppStateView {
        if self.scripts.contains_key(id) {
            AppStateView {
                scripts: self.scripts,
                dispatcher: self.dispatcher.submit(self.scripts[id]),
                jobs: self.jobs,
            }
        } else {
            self
        }
    }

    /// The state after a request to delete the script `id`.
    pub open spec fn deleted(self, id: ScriptId) -> AppStateView {
        AppStateView {
            scripts: self.scripts.remove(id),
            dispatcher: self.dispatcher,
            jobs: self.jobs,
        }
    }
}

impl AppState {
    /// Whether the state satisfies its invariant.
    pub open spec fn wf(&self) -> bool {
        self@.wf()
    }

    /// An engine that holds no script, no request and no job.
    pub fn new() -> (state: AppState)
        ensures
            state.wf(),
            state@.scripts == ScriptTable::empty(),
            state@.dispatcher == DispatcherView::fresh(),
            state@.jobs == Seq::<JobView>::empty(),
    {
        AppState {
            scripts: Registry::new(),
            dispatcher: Dispatcher::new(),
            scheduler: Scheduler::new(),
        }
    }
}

/// Decides on a submission from the verdicts of the parsers: `script_verdict`
/// on the script text and `cron_verdict` on the schedule expression, which is
/// `None` if the submission has no schedule. The first objection, the
/// script's before the schedule's, becomes a request error.
pub fn admit_submission(
    script_verdict: &Result<(), String>,
    cron_verdict: &Option<Result<(), String>>,
) -> (outcome: Result<(), ApiError>)
    ensures
        failure(outcome) == admission(objection(*script_verdict), objections(*cron_verdict)),
{
    match script_verdict {
        Err(description) => Err(badrequest_error(description.clone())),
        Ok(_) => match cron_verdict {
            Some(Err(description)) => Err(badrequest_error(description.clone())),
            _ => Ok(()),
        },
    }
}

/// The engine's operations.
pub struct Api;

impl Api {
    /// Stores an accepted submission under `id`: its text goes into the
    /// registry, replacing what `id` named before, and its schedule, if it has
    /// one, into the book of jobs together with the text as it is now.
    pub fn store(&self, state: &mut AppState, id: ScriptId, payload: ScriptRequest) -> (response:
        ScriptPostResponse)
        requires
            old(state).wf(),
        ensures
            final(state).wf(),
            final(state)@ == old(state)@.stored(id, payload@),
            response.id == id,
            response.script@ == payload@,
            response.job == old(state)@.job_of(payload@),
            all_valid(old(state)@.jobs) && (payload@.cron matches Some(expr) ==> cron_syntax_error(
                expr,
            ) is None) ==> all_valid(final(state)@.jobs),
    {
        let _ = state.scripts.insert(id, payload.script.clone());
        let job = match &payload.cron {
            Some(expr) => {
                match state.scheduler.enter(Ok(()), expr.clone(), payload.script.clone()) {
                    Ok(job) => Some(job),
                    Err(_) => None,
                }
            },
            None => None,
        };
        ScriptPostResponse { id, script: payload, job }
    }

    /// Accepts a submission: validates the script text and, if there is one,
    /// the schedule expression, then stores the script under a freshly drawn
    /// id and registers its schedule. If either parser objects, nothing is
    /// stored or registered and the objection is returned as a request error.
    pub fn script_post(&self, state: &mut AppState, payload: ScriptRequest) -> (outcome: Result<
        ScriptPostResponse,
        ApiError,
    >)
        requires
            old(state).wf(),
        ensures
            final(state).wf(),
            outcome is Err <==> admission(
                script_syntax_error(payload@.script),
                cron_objection(payload@),
            ) is Some,
            outcome matches Err(e) ==> {
                &&& final(state)@ == old(state)@
                &&& Some(e@) == admission(
                    script_syntax_error(payload@.script),
                    cron_objection(payload@),
                )
            },
            outcome matches Ok(response) ==> {
                &&& is_random_form(response.id)
                &&& response.script@ == payload@
                &&& response.job == old(state)@.job_of(payload@)
                &&& final(state)@ == old(state)@.stored(response.id, payload@)
                &&& final(state)@.scripts.contains_key(response.id)
                &&& final(state)@.scripts[response.id] == payload@.script
            },
            script_syntax_error(payload@.script) is Some ==> outcome is Err && final(state)@ == old(
                state,
            )@,
            payload@.cron matches Some(expr) && cron_syntax_error(expr) is Some ==> outcome is Err
                && final(state)@ == old(state)@,
            all_valid(old(state)@.jobs) ==> all_valid(final(state)@.jobs),
    {
        let script_verdict = check_script(payload.script.as_str());
        let cron_verdict = match &payload.cron {
            Some(expr) => Some(check_cron(expr.as_str())),
            None => None,
        };
        match admit_submission(&script_verdict, &cron_verdict) {
            Err(e) => Err(e),
            Ok(_) => {
                let id: u128 = fresh_id();
                Ok(self.store(state, id, payload))
            },
        }
    }

    /// Submits the stored script `id` for execution and returns the ticket
    /// under which its result can be collected from the dispatcher. Fails
    /// with a not-found error if no script is stored under `id`, and with an
    /// internal error if the dispatcher refuses the submission; either way
    /// nothing changes.
    pub fn run_script(&self, state: &mut AppState, id: ScriptId) -> (outcome: Result<
        Ticket,
        ApiError,
    >)
        requires
            old(state).wf(),
        ensures
            final(state).wf(),
            final(state)@ == old(state)@.ran(id),
            outcome is Ok <==> old(state)@.scripts.contains_key(id)
                && old(state)@.dispatcher.accepts(),
            outcome matches Ok(ticket) ==> ticket == old(state)@.dispatcher.issued,
            outcome matches Err(e) ==> e@ == (if old(state)@.scripts.contains_key(id) {
                ApiErrorView::InternalError(old(state)@.dispatcher.refusal())
            } else {
                ApiErrorView::NotFoundError(run_not_found(id))
            }),
    {
        match state.scripts.get(id) {
            None => {
                let message = String::from_str("Script id ").concat(id_text(id).as_str()).concat(
                    " not found",
                );
                Err(notfound_error(message))
            },
            Some(script) => state.dispatcher.submit(script),
        }
    }

    /// A snapshot of every stored script, each listed once, in no particular
    /// order.
    pub fn scripts(&self, state: &AppState) -> (listing: Vec<ScriptResponse>)
        ensures
            lists_entries(listing@.map_values(|r: ScriptResponse| r@), state@.scripts),
            state@.scripts.dom().finite(),
            listing@.len() == state@.scripts.len(),
    {
        let pairs = state.scripts.list();
        let mut listing: Vec<ScriptResponse> = Vec::new();
        let mut i: usize = 0;
        while i < pairs.len()
            invariant
                i <= pairs.len(),
                listing@.len() == i,
                forall|k: int| 0 <= k < i ==> (#[trigger] listing@[k])@ == entry_views(pairs@)[k],
            decreases pairs.len() - i,
        {
            listing.push(ScriptResponse { id: pairs[i].0, script: pairs[i].1.clone() });
            i = i + 1;
        }
        assert(listing@.map_values(|r: ScriptResponse| r@) =~= entry_views(pairs@));
        listing
    }

    /// Deletes the stored script `id` and returns it. Fails with a not-found
    /// error, and changes nothing, if no script is stored under `id`.
    pub fn script_delete(&self, state: &mut AppState, id: ScriptId) -> (outcome: Result<
        ScriptResponse,
        ApiError,
    >)
        requires
            old(state).wf(),
        ensures
            final(state).wf(),
            outcome is Ok <==> old(state)@.scripts.contains_key(id),
            outcome matches Ok(removed) ==> {
                &&& removed@ == (id, old(state)@.scripts[id])
                &&& final(state)@ == old(state)@.deleted(id)
            },
            outcome matches Err(e) ==> {
                &&& e@ == ApiErrorView::NotFoundError(delete_not_found(id))
                &&& final(state)@ == old(state)@
            },
    {
        match state.scripts.delete(id) {
            Some(script) => Ok(ScriptResponse { id, script }),
            None => {
                let message = String::from_str("Script not found: ").concat(id_text(id).as_str());
                Err(notfound_error(message))
            },
        }
    }
}

} // verus!
