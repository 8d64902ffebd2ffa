//! The execution dispatcher: the queue of requests that wait for a worker and
//! the completion slot through which each request's one result comes back.
//!
//! A caller submits a script text and receives a ticket. A worker takes the
//! oldest waiting request, runs it, and writes the result into the slot of
//! that request's ticket. The caller collects the result with its ticket.
//! Slots are single-assignment and are consumed by the collection, so each
//! request yields exactly one result, and only to the holder of its ticket.
//!
//! The queue is unbounded: a submission is never refused for want of room.
//! It is refused only when the dispatcher has been closed or has run out of
//! tickets. A request that a worker took and never completes keeps its slot
//! empty for ever; the dispatcher neither cancels nor times out.

use crate::error::{interal_error, ApiError, ApiErrorView};
use std::collections::HashMap;
use std::collections::VecDeque;
use vstd::prelude::*;
use vstd::string::StringExecFns;

verus! {

broadcast use vstd::std_specs::hash::group_hash_axioms;

/// The ticket of a request: what its submitter holds to collect the result.
pub type Ticket = u64;

/// A request as a worker receives it: the script text as it was when the
/// request was submitted, and the ticket of the slot that awaits the result.
#[derive(Debug, PartialEq, Eq)]
pub struct ExecutionRequest {
    pub ticket: Ticket,
    pub script: String,
}

/// The mathematical value of an [`ExecutionRequest`].
pub struct RequestView {
    pub ticket: Ticket,
    pub script: Seq<char>,
}

impl View for ExecutionRequest {
    type V = RequestView;

    open spec fn view(&self) -> RequestView {
        RequestView { ticket: self.ticket, script: self.script@ }
    }
}

/// The state of a completion slot.
#[derive(Debug)]
pub enum Slot {
    /// The request waits in the queue.
    Queued,
    /// A worker has taken the request and has not yet written a result.
    Running,
    /// The result has been written and waits to be collected.
    Filled(String),
}

/// The mathematical value of a [`Slot`].
pub enum SlotView {
    Queued,
    Running,
    Filled(Seq<char>),
}

impl View for Slot {
    type V = SlotView;

    open spec fn view(&self) -> SlotView {
        match self {
            Slot::Queued => SlotView::Queued,
            Slot::Running => SlotView::Running,
            Slot::Filled(text) => SlotView::Filled(text@),
        }
    }
}

/// How far a request has come.
#[derive(Debug, Clone, Copy, PartialEq, Eq, Structural)]
pub enum Progress {
    /// The ticket names no outstanding request: it was never issued, or its
    /// result has been collected.
    Unknown,
    /// The request waits in the queue.
    Queued,
    /// A worker has taken the request.
    Running,
    /// The result is ready to be collected.
    Finished,
}

/// The mathematical value of a [`Dispatcher`].
pub struct DispatcherView {
    /// Whether submissions are still accepted.
    pub open: bool,
    /// The number of tickets issued so far, which is also the next ticket.
    pub issued: nat,
    /// The requests that wait for a worker, oldest first.
    pub pending: Seq<RequestView>,
    /// The completion slot of every outstanding request.
    pub slots: Map<Ticket, SlotView>,
}

impl DispatcherView {
    /// The invariant of a dispatcher: every slot belongs to an issued ticket,
    /// and the queue holds, oldest first, exactly the requests whose slots
    /// are `Queued`.
    pub open spec fn wf(self) -> bool {
        &&& self.issued <= u64::MAX
        &&& self.slots.dom().finite()
        &&& forall|t: Ticket| self.slots.contains_key(t) ==> t < self.issued
        &&& forall|i: int|
            0 <= i < self.pending.len() ==> self.slots.contains_key(
                (#[trigger] self.pending[i]).ticket,
            ) && self.slots[self.pending[i].ticket] == SlotView::Queued
        &&& forall|i: int, j: int|
            0 <= i < j < self.pending.len() ==> (#[trigger] self.pending[i]).ticket < (
            #[trigger] self.pending[j]).ticket
        &&& forall|t: Ticket|
            self.slots.contains_key(t) && self.slots[t] == SlotView::Queued ==> exists|i: int|
                0 <= i < self.pending.len() && (#[trigger] self.pending[i]).ticket == t
    }

    /// The state of a dispatcher that has not been used yet.
    pub open spec fn fresh() -> DispatcherView {
        DispatcherView { open: true, issued: 0, pending: Seq::empty(), slots: Map::empty() }
    }

    /// Whether a submission is accepted: the dispatcher is open and has a
    /// ticket left.
    pub open spec fn accepts(self) -> bool {
        self.open && self.issued < u64::MAX
    }

    /// The state after a submission of `script`: if it is accepted, the next
    /// ticket is issued, its slot is created and the request joins the queue.
    pub open spec fn submit(self, script: Seq<char>) -> DispatcherView {
        if self.accepts() {
            let ticket = self.issued as Ticket;
            DispatcherView {
                open: self.open,
                issued: self.issued + 1,
                pending: self.pending.push(RequestView { ticket, script }),
                slots: self.slots.insert(ticket, SlotView::Queued),
            }
        } else {
            self
        }
    }

    /// The state after a worker has taken the oldest waiting request, if
    /// there is one.
    pub open spec fn take(self) -> DispatcherView {
        if self.pending.len() > 0 {
            DispatcherView {
                open: self.open,
                issued: self.issued,
                pending: self.pending.drop_first(),
                slots: self.slots.insert(self.pending[0].ticket, SlotView::Running),
            }
        } else {
            self
        }
    }

    /// Whether a worker holds the request of `ticket` and owes its result.
    pub open spec fn awaits(self, ticket: Ticket) -> bool {
        self.slots.contains_key(ticket) && self.slots[ticket] == SlotView::Running
    }

    /// The state after a worker has written `result` for `ticket`. Only the
    /// slot of a running request takes a result; any other write is ignored.
    pub open spec fn complete(self, ticket: Ticket, result: Seq<char>) -> DispatcherView {
        if self.awaits(ticket) {
            DispatcherView {
                open: self.open,
                issued: self.issued,
                pending: self.pending,
                slots: self.slots.insert(ticket, SlotView::Filled(result)),
            }
        } else {
            self
        }
    }

    /// The result that waits under `ticket`, if there is one.
    pub open spec fn result(self, ticket: Ticket) -> Option<Seq<char>> {
        if self.slots.contains_key(ticket) {
            match self.slots[ticket] {
                SlotView::Filled(text) => Some(text),
                _ => None,
            }
        } else {
            None
        }
    }

    /// The state after the holder of `ticket` has collected its result: a
    /// filled slot is consumed, anything else is left as it is.
    pub open spec fn collect(self, ticket: Ticket) -> DispatcherView {
        if self.result(ticket) is Some {
            DispatcherView {
                open: self.open,
                issued: self.issued,
                pending: self.pending,
                slots: self.slots.remove(ticket),
            }
        } else {
            self
        }
    }

    /// The state after the dispatcher has been closed: what is outstanding
    /// stays, nothing new is accepted.
    pub open spec fn close(self) -> DispatcherView {
        DispatcherView {
            open: false,
            issued: self.issued,
            pending: self.pending,
            slots: self.slots,
        }
    }

    /// How far the request of `ticket` has come.
    pub open spec fn progress(self, ticket: Ticket) -> Progress {
        if self.slots.contains_key(ticket) {
            match self.slots[ticket] {
                SlotView::Queued => Progress::Queued,
                SlotView::Running => Progress::Running,
                SlotView::Filled(_) => Progress::Finished,
            }
        } else {
            Progress::Unknown
        }
    }

    /// The message with which a submission is refused.
    pub open spec fn refusal(self) -> Seq<char> {
        if self.open {
            "no ticket is left"@
        } else {
            "sending on a closed channel"@
        }
    }
}

/// A submission keeps the invariant.
pub proof fn lemma_submit_wf(d: DispatcherView, script: Seq<char>)
    requires
        d.wf(),
    ensures
        d.submit(script).wf(),
{
    if d.accepts() {
        let ticket = d.issued as Ticket;
        let after = d.submit(script);
        let n = d.pending.len() as int;
        assert(!d.slots.contains_key(ticket));
        assert forall|i: int| 0 <= i < after.pending.len() implies after.slots.contains_key(
            (#[trigger] after.pending[i]).ticket,
        ) && after.slots[after.pending[i].ticket] == SlotView::Queued by {
            if i < n {
                assert(after.pending[i] == d.pending[i]);
            }
        }
        assert forall|i: int, j: int| 0 <= i < j < after.pending.len() implies (
        #[trigger] after.pending[i]).ticket < (#[trigger] after.pending[j]).ticket by {
            assert(after.pending[i] == d.pending[i]);
            if j < n {
                assert(after.pending[j] == d.pending[j]);
            }
        }
        assert forall|t: Ticket|
            after.slots.contains_key(t) && after.slots[t] == SlotView::Queued implies exists|
            i: int,
        |
            0 <= i < after.pending.len() && (#[trigger] after.pending[i]).ticket == t by {
            if t == ticket {
                assert(after.pending[n].ticket == t);
            } else {
                let i = choose|i: int|
                    0 <= i < d.pending.len() && (#[trigger] d.pending[i]).ticket == t;
                assert(after.pending[i] == d.pending[i]);
            }
        }
    }
}

/// Taking the oldest waiting request keeps the invariant.
pub proof fn lemma_take_wf(d: DispatcherView)
    requires
        d.wf(),
    ensures
        d.take().wf(),
{
    if d.pending.len() > 0 {
        let after = d.take();
        let first = d.pending[0].ticket;
        assert(after.slots.dom() =~= d.slots.dom());
        assert forall|i: int| 0 <= i < after.pending.len() implies after.slots.contains_key(
            (#[trigger] after.pending[i]).ticket,
        ) && after.slots[after.pending[i].ticket] == SlotView::Queued by {
            assert(after.pending[i] == d.pending[i + 1]);
        }
        assert forall|i: int, j: int| 0 <= i < j < after.pending.len() implies (
        #[trigger] after.pending[i]).ticket < (#[trigger] after.pending[j]).ticket by {
            assert(after.pending[i] == d.pending[i + 1]);
            assert(after.pending[j] == d.pending[j + 1]);
        }
        assert forall|t: Ticket|
            after.slots.contains_key(t) && after.slots[t] == SlotView::Queued implies exists|
            i: int,
        |
            0 <= i < after.pending.len() && (#[trigger] after.pending[i]).ticket == t by {
            let i = choose|i: int|
                0 <= i < d.pending.len() && (#[trigger] d.pending[i]).ticket == t;
            assert(after.pending[i - 1] == d.pending[i]);
        }
    }
}

/// Writing a result keeps the invariant.
pub proof fn lemma_complete_wf(d: DispatcherView, ticket: Ticket, result: Seq<char>)
    requires
        d.wf(),
    ensures
        d.complete(ticket, result).wf(),
{
    if d.awaits(ticket) {
        let after = d.complete(ticket, result);
        assert(after.slots.dom() =~= d.slots.dom());
    }
}

/// Collecting a result keeps the invariant.
pub proof fn lemma_collect_wf(d: DispatcherView, ticket: Ticket)
    requires
        d.wf(),
    ensures
        d.collect(ticket).wf(),
{
}

/// Closing keeps the invariant.
pub proof fn lemma_close_wf(d: DispatcherView)
    requires
        d.wf(),
    ensures
        d.close().wf(),
{
    let after = d.close();
    assert forall|t: Ticket|
        after.slots.contains_key(t) && after.slots[t] == SlotView::Queued implies exists|i: int|
        0 <= i < after.pending.len() && (#[trigger] after.pending[i]).ticket == t by {
        let i = choose|i: int| 0 <= i < d.pending.len() && (#[trigger] d.pending[i]).ticket == t;
        assert(after.pending[i].ticket == t);
    }
}

/// No result is delivered to the wrong caller: when two requests are
/// running, each slot takes the result written for its own ticket, in
/// whichever order the two are written, and the state that results is the
/// same either way.
pub proof fn law_no_cross_delivery(
    d: DispatcherView,
    a: Ticket,
    b: Ticket,
    result_a: Seq<char>,
    result_b: Seq<char>,
)
    requires
        a != b,
        d.awaits(a),
        d.awaits(b),
    ensures
        d.complete(a, result_a).complete(b, result_b).result(a) == Some(result_a),
        d.complete(a, result_a).complete(b, result_b).result(b) == Some(result_b),
        d.complete(b, result_b).complete(a, result_a) == d.complete(a, result_a).complete(
            b,
            result_b,
        ),
{
    let first = d.complete(a, result_a).complete(b, result_b);
    let second = d.complete(b, result_b).complete(a, result_a);
    assert(first.slots =~= second.slots);
}

/// A slot takes one result: once a result has been written for a ticket, a
/// second write for the same ticket changes nothing.
pub proof fn law_single_assignment(
    d: DispatcherView,
    ticket: Ticket,
    first: Seq<char>,
    second: Seq<char>,
)
    requires
        d.awaits(ticket),
    ensures
        d.complete(ticket, first).result(ticket) == Some(first),
        d.complete(ticket, first).complete(ticket, second) == d.complete(ticket, first),
{
}

/// A result is delivered once: after it has been collected, nothing waits
/// under its ticket, and the results of the other tickets are untouched.
pub proof fn law_collected_once(d: DispatcherView, ticket: Ticket)
    ensures
        d.collect(ticket).result(ticket) is None,
        d.collect(ticket).collect(ticket) == d.collect(ticket),
        forall|other: Ticket|
            other != ticket ==> d.collect(ticket).result(other) == d.result(other),
{
}

/// A result that waits under a ticket stays as it is, whatever else happens
/// to the dispatcher, until it is collected with that ticket.
pub proof fn law_result_is_stable(
    d: DispatcherView,
    ticket: Ticket,
    other: Ticket,
    text: Seq<char>,
)
    requires
        d.wf(),
        d.result(ticket) is Some,
    ensures
        d.submit(text).result(ticket) == d.result(ticket),
        d.take().result(ticket) == d.result(ticket),
        d.complete(other, text).result(ticket) == d.result(ticket),
        other != ticket ==> d.collect(other).result(ticket) == d.result(ticket),
        d.close().result(ticket) == d.result(ticket),
{
    if d.pending.len() > 0 {
        assert(d.slots[d.pending[0].ticket] == SlotView::Queued);
    }
}

/// A request is handed out once: after a worker has taken it, it waits in
/// the queue no longer, and the worker owes its result.
pub proof fn law_request_is_taken_once(d: DispatcherView)
    requires
        d.wf(),
        d.pending.len() > 0,
    ensures
        d.take().awaits(d.pending[0].ticket),
        forall|i: int|
            0 <= i < d.take().pending.len() ==> (#[trigger] d.take().pending[i]).ticket
                != d.pending[0].ticket,
{
    assert forall|i: int| 0 <= i < d.take().pending.len() implies (
    #[trigger] d.take().pending[i]).ticket != d.pending[0].ticket by {
        assert(d.take().pending[i] == d.pending[i + 1]);
    }
}

/// A ticket is issued once: the ticket of a new request names no outstanding
/// request, and every later ticket is larger.
pub proof fn law_tickets_are_fresh(d: DispatcherView, script: Seq<char>)
    requires
        d.wf(),
        d.accepts(),
    ensures
        !d.slots.contains_key(d.issued as Ticket),
        d.submit(script).progress(d.issued as Ticket) == Progress::Queued,
        d.submit(script).issued == d.issued + 1,
        forall|t: Ticket| t != d.issued ==> d.submit(script).progress(t) == d.progress(t),
{
}

/// The path of one request: submitted to an idle dispatcher, taken by a
/// worker and completed with `result`, it yields `result` under the ticket
/// that the submission returned, and the collection leaves the slots as they
/// were before the submission.
pub proof fn law_request_round_trip(d: DispatcherView, script: Seq<char>, result: Seq<char>)
    requires
        d.wf(),
        d.accepts(),
        d.pending.len() == 0,
    ensures
        ({
            let ticket = d.issued as Ticket;
            let taken = d.submit(script).take();
            let done = taken.complete(ticket, result);
            &&& d.submit(script).pending == seq![RequestView { ticket, script }]
            &&& taken.awaits(ticket)
            &&& done.result(ticket) == Some(result)
            &&& done.collect(ticket).slots == d.slots
            &&& done.collect(ticket).pending == d.pending
        }),
{
    let ticket = d.issued as Ticket;
    let taken = d.submit(script).take();
    let done = taken.complete(ticket, result);
    assert(d.submit(script).pending =~= seq![RequestView { ticket, script }]);
    assert(!d.slots.contains_key(ticket));
    assert(done.collect(ticket).slots =~= d.slots);
    assert(done.collect(ticket).pending =~= d.pending);
}

/// Requests are served in the order of their submission: a request that is
/// submitted while others wait is taken only after all of them.
pub proof fn law_first_in_first_out(d: DispatcherView, script: Seq<char>)
    requires
        d.wf(),
        d.accepts(),
        d.pending.len() > 0,
    ensures
        d.submit(script).take() == d.take().submit(script),
{
    let left = d.submit(script).take();
    let right = d.take().submit(script);
    let ticket = d.issued as Ticket;
    assert(d.slots.contains_key(d.pending[0].ticket));
    assert(left.pending =~= right.pending);
    assert(left.slots =~= right.slots);
}

/// The dispatcher.
pub struct Dispatcher {
    open: bool,
    issued: u64,
    queue: VecDeque<ExecutionRequest>,
    slots: HashMap<u64, Slot>,
}

impl View for Dispatcher {
    type V = DispatcherView;

    closed spec fn view(&self) -> DispatcherView {
        DispatcherView {
            open: self.open,
            issued: self.issued as nat,
            pending: self.queue@.map_values(|request: ExecutionRequest| request@),
            slots: self.slots@.map_values(|slot: Slot| slot@),
        }
    }
}

impl Dispatcher {
    /// Whether the dispatcher satisfies its invariant.
    pub open spec fn wf(&self) -> bool {
        self@.wf()
    }

    /// A dispatcher that is open and has nothing outstanding.
    pub fn new() -> (dispatcher: Dispatcher)
        ensures
            dispatcher@ == DispatcherView::fresh(),
            dispatcher.wf(),
    {
        let dispatcher = Dispatcher {
            open: true,
            issued: 0,
            queue: VecDeque::new(),
            slots: HashMap::new(),
        };
        assert(dispatcher@.pending =~= Seq::empty());
        assert(dispatcher@.slots =~= Map::empty());
        dispatcher
    }

    /// Submits `script` for execution and returns the ticket under which its
    /// result can be collected. Fails, and changes nothing, if the dispatcher
    /// is closed or has no ticket left.
    pub fn submit(&mut self, script: String) -> (outcome: Result<Ticket, ApiError>)
        requires
            old(self).wf(),
        ensures
            final(self).wf(),
            final(self)@ == old(self)@.submit(script@),
            outcome is Ok <==> old(self)@.accepts(),
            outcome matches Ok(ticket) ==> ticket == old(self)@.issued,
            outcome matches Err(e) ==> e@ == ApiErrorView::InternalError(old(self)@.refusal()),
    {
        if !self.open {
            return Err(interal_error(String::from_str("sending on a closed channel")));
        }
        if self.issued == u64::MAX {
            return Err(interal_error(String::from_str("no ticket is left")));
        }
        let ticket: u64 = self.issued;
        let ghost before = self@;
        let ghost request = RequestView { ticket, script: script@ };
        self.queue.push_back(ExecutionRequest { ticket, script });
        self.slots.insert(ticket, Slot::Queued);
        self.issued = ticket + 1;
        proof {
            assert(self@.pending =~= before.pending.push(request));
            assert(self@.slots =~= before.slots.insert(ticket, SlotView::Queued));
            lemma_submit_wf(before, script@);
        }
        Ok(ticket)
    }

    /// Hands the oldest waiting request to a worker, or returns `None` if no
    /// request waits. The request leaves the queue for good: no other worker
    /// will receive it.
    pub fn take(&mut self) -> (request: Option<ExecutionRequest>)
        requires
            old(self).wf(),
        ensures
            final(self).wf(),
            final(self)@ == old(self)@.take(),
            request is Some <==> old(self)@.pending.len() > 0,
            request matches Some(r) ==> r@ == old(self)@.pending[0],
    {
        let ghost before = self@;
        match self.queue.pop_front() {
            None => {
                assert(self@.pending =~= before.pending);
                None
            },
            Some(request) => {
                self.slots.insert(request.ticket, Slot::Running);
                proof {
                    assert(request@ == before.pending[0]);
                    assert(self@.pending =~= before.pending.drop_first());
                    assert(self@.slots =~= before.slots.insert(
                        request.ticket,
                        SlotView::Running,
                    ));
                    lemma_take_wf(before);
                }
                Some(request)
            },
        }
    }

    /// Writes `result` into the slot of `ticket` and says whether the slot
    /// took it. A slot takes a result only while a worker holds its request:
    /// a second write, or a write for a ticket that no worker holds, changes
    /// nothing.
    pub fn complete(&mut self, ticket: Ticket, result: String) -> (written: bool)
        requires
            old(self).wf(),
        ensures
            final(self).wf(),
            final(self)@ == old(self)@.complete(ticket, result@),
            written == old(self)@.awaits(ticket),
    {
        let ghost before = self@;
        let running = match self.slots.get(&ticket) {
            Some(Slot::Running) => true,
            _ => false,
        };
        if running {
            self.slots.insert(ticket, Slot::Filled(result));
            proof {
                assert(self@.slots =~= before.slots.insert(ticket, SlotView::Filled(result@)));
                lemma_complete_wf(before, ticket, result@);
            }
        }
        running
    }

    /// Collects the result of `ticket`: returns it and consumes the slot, or
    /// returns `None` and changes nothing if no result waits under `ticket`.
    pub fn collect(&mut self, ticket: Ticket) -> (result: Option<String>)
        requires
            old(self).wf(),
        ensures
            final(self).wf(),
            final(self)@ == old(self)@.collect(ticket),
            result is Some <==> old(self)@.result(ticket) is Some,
            result matches Some(text) ==> Some(text@) == old(self)@.result(ticket),
    {
        let ghost before = self@;
        let ready = match self.slots.get(&ticket) {
            Some(Slot::Filled(_)) => true,
            _ => false,
        };
        if ready {
            let slot = self.slots.remove(&ticket);
            proof {
                assert(self@.slots =~= before.slots.remove(ticket));
                lemma_collect_wf(before, ticket);
            }
            match slot {
                Some(Slot::Filled(text)) => Some(text),
                _ => None,
            }
        } else {
            None
        }
    }

    /// Closes the dispatcher: from now on every submission is refused. What
    /// is outstanding stays and can still be taken, completed and collected.
    pub fn close(&mut self)
        requires
            old(self).wf(),
        ensures
            final(self).wf(),
            final(self)@ == old(self)@.close(),
    {
        proof {
            lemma_close_wf(self@);
        }
        self.open = false;
    }

    /// Whether submissions are still accepted as far as the caller can
    /// influence it: whether the dispatcher has not been closed.
    pub fn is_open(&self) -> (open: bool)
        ensures
            open == self@.open,
    {
        self.open
    }

    /// The number of requests that wait for a worker.
    pub fn backlog(&self) -> (n: usize)
        ensures
            n == self@.pending.len(),
    {
        self.queue.len()
    }

    /// How far the request of `ticket` has come.
    pub fn progress(&self, ticket: Ticket) -> (progress: Progress)
        ensures
            progress == self@.progress(ticket),
    {
        match self.slots.get(&ticket) {
            None => Progress::Unknown,
            Some(Slot::Queued) => Progress::Queued,
            Some(Slot::Running) => Progress::Running,
            Some(Slot::Filled(_)) => Progress::Finished,
        }
    }
}

} // verus!
