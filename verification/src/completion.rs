//! Completion events and the queue on which a driver publishes them.
use crossbeam_queue::SegQueue;
use vstd::prelude::*;
use crate::sockaddr::SocketAddr;

verus! {

/// Which use of which slot an event belongs to. A slot is used again under a new
/// generation, so a late event of an earlier use is told apart.
#[derive(Debug, Clone, Copy, PartialEq, Eq, Structural)]
pub struct CompletionToken {
    pub user_data: usize,
    pub generation: u32,
}

/// A finished operation: its token, its result (a count, or a negated error
/// number) and the kernel's flags.
#[derive(Debug, Clone, Copy, PartialEq, Eq, Structural)]
pub struct CompletionEvent {
    pub token: CompletionToken,
    pub res: i32,
    pub flags: u32,
}

/// Everything a driver knows of a finished operation.
#[derive(Debug)]
pub struct CompletionSidecar<P> {
    pub user_data: usize,
    pub generation: u32,
    pub res: i32,
    pub flags: u32,
    /// What the submitter attached to the operation.
    pub payload: Option<P>,
    /// The exact result, where it does not fit into `res`.
    pub detail: Option<Result<usize, i32>>,
    /// Who is at the other end, where the operation finds that out.
    pub peer: Option<SocketAddr>,
}

/// A finished operation as its submitter picks it up.
#[derive(Debug)]
pub struct CompletionRecord<P> {
    pub event: CompletionEvent,
    pub payload: Option<P>,
    pub detail: Option<Result<usize, i32>>,
    pub peer: Option<SocketAddr>,
}

impl<P> CompletionSidecar<P> {
    /// The event that announces this completion.
    pub open spec fn event(&self) -> CompletionEvent {
        CompletionEvent {
            token: CompletionToken { user_data: self.user_data, generation: self.generation },
            res: self.res,
            flags: self.flags,
        }
    }

    /// The record under which this completion is stored.
    pub open spec fn record(&self) -> CompletionRecord<P> {
        CompletionRecord {
            event: self.event(),
            payload: self.payload,
            detail: self.detail,
            peer: self.peer,
        }
    }
}

/// Splits a sidecar into the event to announce and the data to store.
pub fn completion_record<P>(sidecar: CompletionSidecar<P>) -> (r: CompletionRecord<P>)
    ensures
        r == sidecar.record(),
{
    CompletionRecord {
        event: CompletionEvent {
            token: CompletionToken {
                user_data: sidecar.user_data,
                generation: sidecar.generation,
            },
            res: sidecar.res,
            flags: sidecar.flags,
        },
        payload: sidecar.payload,
        detail: sidecar.detail,
        peer: sidecar.peer,
    }
}

/// The outcome of an operation as an event result: the count, capped at the
/// largest `i32`, or the negated error number.
pub open spec fn event_res(res: Result<usize, Option<i32>>) -> int {
    match res {
        Ok(v) => if v <= i32::MAX {
            v as int
        } else {
            i32::MAX as int
        },
        Err(Some(code)) => -code,
        Err(None) => -1,
    }
}

/// Turns the outcome of an operation into an event result. An error without a
/// system number counts as error 1.
pub fn io_result_to_event_res(res: &Result<usize, Option<i32>>) -> (r: i32)
    requires
        *res matches Err(Some(code)) ==> code > i32::MIN,
    ensures
        r == event_res(*res),
{
    match res {
        Ok(v) => if *v <= 0x7fff_ffff {
            *v as i32
        } else {
            i32::MAX
        },
        Err(code) => match code {
            Some(c) => -*c,
            None => -1,
        },
    }
}

// ---------------------------------------------------------------------------
// The event queue
// ---------------------------------------------------------------------------

/// The lock-free queue of `crossbeam_queue`.
#[verifier::external_type_specification]
#[verifier::external_body]
#[verifier::reject_recursive_types(T)]
pub struct ExSegQueue<T>(SegQueue<T>);

/// The events in a queue, oldest first.
pub uninterp spec fn queued_events(q: SegQueue<CompletionEvent>) -> Seq<CompletionEvent>;

/// Calls `SegQueue::new`, which makes an empty queue.
#[verifier::external_body]
fn new_queue() -> (q: SegQueue<CompletionEvent>)
    ensures
        queued_events(q) == Seq::<CompletionEvent>::empty(),
{
    SegQueue::new()
}

/// Calls `SegQueue::push`, which appends an item at the back. The exclusive
/// reference rules out any other user of the queue during the call.
#[verifier::external_body]
fn push_queue(q: &mut SegQueue<CompletionEvent>, event: CompletionEvent)
    ensures
        queued_events(*final(q)) == queued_events(*old(q)).push(event),
{
    q.push(event);
}

/// Calls `SegQueue::pop`, which takes the item at the front, if there is one. The
/// exclusive reference rules out any other user of the queue during the call.
#[verifier::external_body]
fn pop_queue(q: &mut SegQueue<CompletionEvent>) -> (r: Option<CompletionEvent>)
    ensures
        queued_events(*old(q)).len() == 0 ==> r is None && queued_events(*final(q))
            == queued_events(*old(q)),
        queued_events(*old(q)).len() > 0 ==> r == Some(queued_events(*old(q))[0]) && queued_events(*final(q)) == queued_events(*old(q)).drop_first(),
{
    q.pop()
}

/// Where a driver publishes completions: a queue that announces them, and per slot
/// the data of its latest completion.
pub struct CompletionSink<P> {
    queue: SegQueue<CompletionEvent>,
    table: Vec<Option<CompletionRecord<P>>>,
}

impl<P> CompletionSink<P> {
    /// The events announced and not yet drained, oldest first.
    pub closed spec fn events(&self) -> Seq<CompletionEvent> {
        queued_events(self.queue)
    }

    /// The stored records, one place per slot.
    pub closed spec fn records(&self) -> Seq<Option<CompletionRecord<P>>> {
        self.table@
    }

    /// A sink for `slots` slots, with nothing in it.
    pub fn new(slots: usize) -> (s: Self)
        ensures
            s.events() == Seq::<CompletionEvent>::empty(),
            s.records() == Seq::new(slots as nat, |i: int| None::<CompletionRecord<P>>),
    {
        let mut table: Vec<Option<CompletionRecord<P>>> = Vec::new();
        let mut i: usize = 0;
        while i < slots
            invariant
                i <= slots,
                table@ == Seq::new(i as nat, |k: int| None::<CompletionRecord<P>>),
            decreases slots - i,
        {
            table.push(None);
            i = i + 1;
            assert(table@ =~= Seq::new(i as nat, |k: int| None::<CompletionRecord<P>>));
        }
        CompletionSink { queue: new_queue(), table }
    }

    /// Publishes a completion: announces its event and stores its data under its
    /// slot.
    pub fn push_completion_event(&mut self, sidecar: CompletionSidecar<P>)
        requires
            sidecar.user_data < old(self).records().len(),
        ensures
            final(self).events() == old(self).events().push(sidecar.event()),
            final(self).records() == old(self).records().update(
                sidecar.user_data as int,
                Some(sidecar.record()),
            ),
    {
        let record = completion_record(sidecar);
        let event = record.event;
        let index: usize = event.token.user_data;
        self.table.set(index, Some(record));
        push_queue(&mut self.queue, event);
    }

    /// Moves every announced event to the end of `out`, oldest first, and gives
    /// their number.
    pub fn drain_completions(&mut self, out: &mut Vec<CompletionEvent>) -> (n: usize)
        ensures
            n == old(self).events().len(),
            final(out)@ == old(out)@ + old(self).events(),
            final(self).events() == Seq::<CompletionEvent>::empty(),
            final(self).records() == old(self).records(),
    {
        let ghost before = self.events();
        let ghost start = out@;
        let first: usize = out.len();
        loop
            invariant
                out@ + self.events() == start + before,
                out@.len() >= start.len(),
                self.records() == old(self).records(),
                first == start.len(),
            ensures
                self.events().len() == 0,
            decreases self.events().len(),
        {
            let ghost here = self.events();
            let ghost got = out@;
            match pop_queue(&mut self.queue) {
                Some(event) => {
                    out.push(event);
                    assert(out@ + self.events() =~= got + here);
                },
                None => {
                    break;
                },
            }
        }
        assert(self.events() =~= Seq::<CompletionEvent>::empty());
        assert(out@ =~= start + before);
        out.len() - first
    }

    /// Picks up the data stored for a token. A token of an earlier use of its slot
    /// gets nothing, and takes nothing away.
    pub fn take_record(&mut self, token: CompletionToken) -> (r: Option<CompletionRecord<P>>)
        ensures
            final(self).events() == old(self).events(),
            match old(self).record_of(token) {
                Some(record) => {
                    &&& r == Some(record)
                    &&& final(self).records() == old(self).records().update(
                        token.user_data as int,
                        None,
                    )
                },
                None => {
                    &&& r is None
                    &&& final(self).records() == old(self).records()
                },
            },
    {
        if token.user_data >= self.table.len() {
            return None;
        }
        let index: usize = token.user_data;
        let current: bool = match &self.table[index] {
            Some(record) => record.event.token.user_data == token.user_data
                && record.event.token.generation == token.generation,
            None => false,
        };
        if !current {
            return None;
        }
        let taken = self.table[index].take();
        assert(self.table@ =~= old(self).table@.update(index as int, None));
        taken
    }

    /// The record stored for a token, if its slot still holds it.
    pub open spec fn record_of(&self, token: CompletionToken) -> Option<CompletionRecord<P>> {
        if token.user_data < self.records().len() {
            match self.records()[token.user_data as int] {
                Some(record) => if record.event.token == token {
                    Some(record)
                } else {
                    None
                },
                None => None,
            }
        } else {
            None
        }
    }
}

/// What is published under a token is what is picked up under it.
pub proof fn published_records_are_found<P>(
    before: CompletionSink<P>,
    after: CompletionSink<P>,
    sidecar: CompletionSidecar<P>,
)
    requires
        sidecar.user_data < before.records().len(),
        after.records() == before.records().update(
            sidecar.user_data as int,
            Some(sidecar.record()),
        ),
    ensures
        after.record_of(sidecar.event().token) == Some(sidecar.record()),
{
}

/// The result in an event tells success from failure, and spells the number out: a count that
/// fits is the result itself, a larger one is the largest result, and an error number is
/// negated.
pub proof fn results_tell_success_from_failure(res: Result<usize, Option<i32>>)
    ensures
        res is Ok ==> event_res(res) >= 0,
        res matches Err(Some(code)) ==> (code > 0 ==> event_res(res) < 0) && event_res(res) + code
            == 0,
        res matches Err(None) ==> event_res(res) + 1 == 0,
        res matches Ok(n) ==> (n < 0x8000_0000 ==> event_res(res) == n) && (n >= 0x8000_0000
            ==> event_res(res) == 0x7fff_ffff),
        res matches Err(Some(code)) ==> (code > i32::MIN ==> i32::MIN < event_res(res) <= i32::MAX),
{
}

/// What is announced and what is stored carry the token of the operation and what it came to.
pub proof fn records_carry_what_was_published<P>(sidecar: CompletionSidecar<P>)
    ensures
        sidecar.record().event == sidecar.event(),
        sidecar.event().token.user_data == sidecar.user_data,
        sidecar.event().token.generation == sidecar.generation,
        sidecar.event().res == sidecar.res,
        sidecar.event().flags == sidecar.flags,
        sidecar.record().payload == sidecar.payload,
        sidecar.record().detail == sidecar.detail,
        sidecar.record().peer == sidecar.peer,
{
}

/// A record is found by the number and the generation of its operation, both, and by no other
/// token.
pub proof fn records_are_found_by_their_token<P>(
    sink: CompletionSink<P>,
    token: CompletionToken,
    record: CompletionRecord<P>,
)
    ensures
        sink.record_of(token) == Some(record) <==> token.user_data < sink.records().len()
            && sink.records()[token.user_data as int] == Some(record)
            && record.event.token.user_data == token.user_data && record.event.token.generation
            == token.generation,
{
}

/// Completions are announced in the order in which they were published, each once, and what is
/// published for a slot takes the place of what was published for it before. Whoever picks a
/// record up by its token gets it once.
pub proof fn completions_are_announced_in_order<P>(
    sidecar: CompletionSidecar<P>,
    token: CompletionToken,
    k: int,
)
    ensures
        forall|s: &mut CompletionSink<P>| #[trigger]
            call_ensures(CompletionSink::<P>::push_completion_event, (s, sidecar), ())
                && sidecar.user_data < (*s).records().len() ==> {
                &&& (*s).events().is_prefix_of((*final(s)).events())
                &&& (*final(s)).events().len() == (*s).events().len() + 1
                &&& (*final(s)).events().last().token.user_data == sidecar.user_data
                &&& (*final(s)).events().last().token.generation == sidecar.generation
                &&& (*final(s)).events().last().res == sidecar.res
                &&& (*final(s)).records()[sidecar.user_data as int] matches Some(r) && r.payload
                    == sidecar.payload && r.peer == sidecar.peer && r.detail == sidecar.detail
                &&& 0 <= k < (*s).records().len() && k != sidecar.user_data ==> (*final(
                    s)).records()[k] == (*s).records()[k]
            },
        forall|s: &mut CompletionSink<P>, out: &mut Vec<CompletionEvent>, n: usize| #[trigger]
            call_ensures(CompletionSink::<P>::drain_completions, (s, out), n) ==> {
                &&& n == (*s).events().len()
                &&& (*final(s)).events().len() == 0
                &&& (*final(out))@.len() == (*out)@.len() + n
                &&& 0 <= k < n ==> (*final(out))@[(*out)@.len() + k] == (*s).events()[k]
                &&& 0 <= k < (*out)@.len() ==> (*final(out))@[k] == (*out)@[k]
            },
        forall|s: &mut CompletionSink<P>, r: Option<CompletionRecord<P>>| #[trigger]
            call_ensures(CompletionSink::<P>::take_record, (s, token), r) ==> {
                &&& r matches Some(x) ==> x.event.token == token && token.user_data < (
                *s).records().len() && (*s).records()[token.user_data as int] == Some(x)
                    && (*final(s)).record_of(token) is None
                &&& r is None ==> (*s).record_of(token) is None && (*final(s)).records() == (
                *s).records()
                &&& (*final(s)).events() == (*s).events()
            },
{
}

} // verus!
