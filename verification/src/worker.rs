//! The worker's part: running one request in a fresh interpreter and writing
//! its outcome into the request's completion slot.

use crate::dispatcher::{Dispatcher, SlotView, Ticket};
use crate::validate::script_syntax_error;
use vstd::prelude::*;

verus! {

/// The text of the error that the interpreter raises for a script that it
/// cannot parse, given the parser's description of the syntax error.
pub open spec fn syntax_failure(description: Seq<char>) -> Seq<char> {
    "Syntax error: "@ + description
}

/// Evaluates `script` with `rhai::Engine::eval` in a newly made engine on
/// which `fetch` is registered under the name `fetch`, and writes the value
/// or the error out with its `Display`.
///
/// Trusted of a script that the parser rejects: `eval` parses before it runs
/// anything, with the parser and the settings that `compile` has on a new
/// engine, and on which registered functions have no bearing; it fails with
/// the parser's error, whose `Display` is the parser's description behind the
/// words `Syntax error: `. Nothing is promised of a script that parses: what
/// it yields depends on what `fetch` returns. The call does not return while
/// the script runs, and a script that never ends never returns.
#[verifier::external_body]
fn evaluate<F: Fn(&str) -> String + Clone + 'static>(
    script: &str,
    fetch: &F,
) -> (outcome: Result<String, String>)
    ensures
        script_syntax_error(script@) is Some ==> outcome is Err,
        script_syntax_error(script@) matches Some(description) ==> delivered_text(outcome)
            == syntax_failure(description),
{
    let mut engine = rhai::Engine::new();
    engine.register_fn("fetch", fetch.clone());
    match engine.eval::<rhai::Dynamic>(script) {
        Ok(value) => Ok(value.to_string()),
        Err(error) => Err(error.to_string()),
    }
}

/// The text that an outcome is delivered as: the value's text if there is a
/// value, the description of the failure if there is none.
pub open spec fn delivered_text(outcome: Result<String, String>) -> Seq<char> {
    match outcome {
        Ok(value) => value@,
        Err(description) => description@,
    }
}

/// Turns an outcome into the text that is delivered for it. A failure is no
/// failure of the delivery: its description is delivered like a value.
pub fn deliver(outcome: Result<String, String>) -> (text: String)
    ensures
        text@ == delivered_text(outcome),
{
    match outcome {
        Ok(value) => value,
        Err(description) => description,
    }
}

/// Runs `script` in a fresh interpreter, which offers the script nothing
/// from earlier runs and one capability, `fetch`, and returns the text of
/// what the script evaluated to or of the error it raised. A script that
/// the parser rejects is not run at all: its text is the syntax error's.
/// Of a script that parses, the text depends on the interpreter and on what
/// `fetch` returns, and nothing is stated of it.
pub fn execute<F: Fn(&str) -> String + Clone + 'static>(
    script: &str,
    fetch: &F,
) -> (text: String)
    ensures
        script_syntax_error(script@) matches Some(description) ==> text@ == syntax_failure(
            description,
        ),
{
    deliver(evaluate(script, fetch))
}

/// Does one worker's round: takes the oldest waiting request, runs it and
/// writes the outcome into its slot. Returns the ticket that was served, or
/// `None`, having changed nothing, if no request waited.
pub fn serve<F: Fn(&str) -> String + Clone + 'static>(
    dispatcher: &mut Dispatcher,
    fetch: &F,
) -> (served: Option<Ticket>)
    requires
        old(dispatcher).wf(),
    ensures
        final(dispatcher).wf(),
        served is Some <==> old(dispatcher)@.pending.len() > 0,
        served is None ==> final(dispatcher)@ == old(dispatcher)@,
        served matches Some(ticket) ==> {
            &&& ticket == old(dispatcher)@.pending[0].ticket
            &&& final(dispatcher)@.result(ticket) matches Some(text)
            &&& final(dispatcher)@ == old(dispatcher)@.take().complete(ticket, text)
        },
{
    match dispatcher.take() {
        None => None,
        Some(request) => {
            let text = execute(request.script.as_str(), fetch);
            let written = dispatcher.complete(request.ticket, text);
            assert(written);
            Some(request.ticket)
        },
    }
}

/// Serves every waiting request, oldest first, and returns how many there
/// were. Afterwards no request waits: each one that did has its result in
/// its slot. Nothing else changes.
pub fn serve_all<F: Fn(&str) -> String + Clone + 'static>(
    dispatcher: &mut Dispatcher,
    fetch: &F,
) -> (served: usize)
    requires
        old(dispatcher).wf(),
    ensures
        final(dispatcher).wf(),
        served == old(dispatcher)@.pending.len(),
        final(dispatcher)@.pending.len() == 0,
        final(dispatcher)@.open == old(dispatcher)@.open,
        final(dispatcher)@.issued == old(dispatcher)@.issued,
        final(dispatcher)@.slots.dom() == old(dispatcher)@.slots.dom(),
        forall|t: Ticket| #[trigger]
            old(dispatcher)@.slots.contains_key(t) ==> if old(dispatcher)@.slots[t]
                == SlotView::Queued {
                final(dispatcher)@.slots[t] is Filled
            } else {
                final(dispatcher)@.slots[t] == old(dispatcher)@.slots[t]
            },
{
    let waiting: usize = dispatcher.backlog();
    let mut served: usize = 0;
    while served < waiting
        invariant
            dispatcher.wf(),
            waiting == old(dispatcher)@.pending.len(),
            served + dispatcher@.pending.len() == old(dispatcher)@.pending.len(),
            dispatcher@.open == old(dispatcher)@.open,
            dispatcher@.issued == old(dispatcher)@.issued,
            dispatcher@.slots.dom() == old(dispatcher)@.slots.dom(),
            forall|t: Ticket| #[trigger]
                old(dispatcher)@.slots.contains_key(t) ==> if old(dispatcher)@.slots[t]
                    == SlotView::Queued {
                    dispatcher@.slots[t] is Filled || dispatcher@.slots[t] == SlotView::Queued
                } else {
                    dispatcher@.slots[t] == old(dispatcher)@.slots[t]
                },
        decreases waiting - served,
    {
        let ghost before = dispatcher@;
        let _ = serve(dispatcher, fetch);
        proof {
            let t = before.pending[0].ticket;
            assert(before.slots.contains_key(t) && before.slots[t] == SlotView::Queued);
            assert(dispatcher@.slots.dom() =~= before.slots.dom());
        }
        served = served + 1;
    }
    proof {
        assert forall|t: Ticket| #[trigger]
            old(dispatcher)@.slots.contains_key(t) && old(dispatcher)@.slots[t]
                == SlotView::Queued implies dispatcher@.slots[t] is Filled by {
            if dispatcher@.slots[t] == SlotView::Queued {
                let i = choose|i: int|
                    0 <= i < dispatcher@.pending.len() && (#[trigger] dispatcher@.pending[i]).ticket
                        == t;
            }
        }
    }
    served
}

} // verus!
