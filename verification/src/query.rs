//! Questions about the world that wait for the server's answer.
//!
//! Every question gets a number. The answer is matched to it by that number, and
//! a question that waited too long is forgotten, so that nothing piles up.

use std::collections::HashSet;

use vstd::prelude::*;

use crate::agent::{emit, ActionKind, OutLine, QueryResult};

verus! {

broadcast use vstd::std_specs::hash::group_hash_axioms;

/// How many seconds a question waits for its answer.
pub const QUERY_TIMEOUT_SECS: u64 = 8;

/// What is asked.
#[derive(Clone, Copy, PartialEq, Eq, Structural, Debug)]
pub enum Question {
    Block { x: i32, y: i32, z: i32 },
    Region { x1: i32, y1: i32, z1: i32, x2: i32, y2: i32, z2: i32 },
}

/// The action that puts a question to the server.
pub open spec fn asking(question: Question, request_id: u64) -> ActionKind {
    match question {
        Question::Block { x, y, z } => ActionKind::GetBlock { request_id, x, y, z },
        Question::Region { x1, y1, z1, x2, y2, z2 } => ActionKind::ScanRegion {
            request_id,
            x1,
            y1,
            z1,
            x2,
            y2,
            z2,
        },
    }
}

/// The questions that wait for an answer.
pub struct Pending {
    pub waiting: HashSet<u64>,
    pub next_id: u64,
}

impl View for Pending {
    type V = Set<u64>;

    open spec fn view(&self) -> Set<u64> {
        self.waiting@
    }
}

impl Pending {
    /// Only questions wait that were asked.
    pub open spec fn wf(&self) -> bool {
        &&& self.next_id >= 1
        &&& forall|id: u64| #[trigger] self@.contains(id) ==> 1 <= id < self.next_id
    }

    /// No questions yet; the first gets the number 1.
    pub fn new() -> (r: Self)
        ensures
            r.wf(),
            r@ == Set::<u64>::empty(),
            r.next_id == 1,
    {
        Pending { waiting: HashSet::new(), next_id: 1 }
    }

    /// Asks a question: its number, and the line to the server.
    pub fn begin(&mut self, session: u64, question: Question) -> (r: (u64, OutLine))
        requires
            old(self).wf(),
            old(self).next_id < u64::MAX,
        ensures
            final(self).wf(),
            r.0 == old(self).next_id,
            !old(self)@.contains(r.0),
            final(self)@ == old(self)@.insert(r.0),
            final(self).next_id == old(self).next_id + 1,
            r.1 == (OutLine { session, kind: asking(question, r.0) }),
    {
        let request_id: u64 = self.next_id;
        self.next_id = self.next_id + 1;
        self.waiting.insert(request_id);
        assert forall|id: u64| #[trigger] self@.contains(id) implies 1 <= id < self.next_id by {
            assert(id == request_id || old(self)@.contains(id));
        }
        let kind = match question {
            Question::Block { x, y, z } => ActionKind::GetBlock { request_id, x, y, z },
            Question::Region { x1, y1, z1, x2, y2, z2 } => ActionKind::ScanRegion {
                request_id,
                x1,
                y1,
                z1,
                x2,
                y2,
                z2,
            },
        };
        (request_id, emit(session, kind))
    }

    /// Whether an answer with this number is waited for; it is not any more then.
    pub fn complete(&mut self, request_id: u64) -> (r: bool)
        requires
            old(self).wf(),
        ensures
            final(self).wf(),
            r == old(self)@.contains(request_id),
            final(self)@ == old(self)@.remove(request_id),
            final(self).next_id == old(self).next_id,
    {
        let r = self.waiting.remove(&request_id);
        assert(self@ =~= old(self)@.remove(request_id));
        r
    }

    /// Forgets a question that waited too long.
    pub fn expire(&mut self, request_id: u64)
        requires
            old(self).wf(),
        ensures
            final(self).wf(),
            final(self)@ == old(self)@.remove(request_id),
            final(self).next_id == old(self).next_id,
    {
        let _known = self.waiting.remove(&request_id);
        assert(self@ =~= old(self)@.remove(request_id));
    }
}

/// How the wait for an answer ended.
#[derive(Clone, Debug, PartialEq, Eq)]
pub enum Waited {
    Answered(QueryResult),
    /// Nobody is left who could answer.
    Closed,
    TimedOut,
}

/// What a question comes to once the wait for its answer has ended; one that waited
/// too long is forgotten.
pub fn run_query(pending: &mut Pending, request_id: u64, waited: Waited) -> (r: Result<
    QueryResult,
    String,
>)
    requires
        old(pending).wf(),
    ensures
        final(pending).wf(),
        final(pending).next_id == old(pending).next_id,
        final(pending)@ == (if waited is TimedOut {
            old(pending)@.remove(request_id)
        } else {
            old(pending)@
        }),
        match (waited, r) {
            (Waited::Answered(result), Ok(given)) => given == result,
            (Waited::Closed, Err(why)) => why@ == "world read failed (reply channel closed)"@,
            (Waited::TimedOut, Err(why)) => why@
                == "world read timed out (server busy, or persistence disabled?)"@,
            _ => false,
        },
{
    match waited {
        Waited::Answered(result) => Ok(result),
        Waited::Closed => Err("world read failed (reply channel closed)".to_owned()),
        Waited::TimedOut => {
            pending.expire(request_id);
            Err("world read timed out (server busy, or persistence disabled?)".to_owned())
        },
    }
}

/// One thing that happens to a question.
pub ghost enum QueryEvent {
    Answer(u64),
    Expire(u64),
}

/// The questions that wait after these events.
pub open spec fn waiting_after(waiting: Set<u64>, events: Seq<QueryEvent>) -> Set<u64>
    decreases events.len(),
{
    if events.len() == 0 {
        waiting
    } else {
        match events.last() {
            QueryEvent::Answer(id) => waiting_after(waiting, events.drop_last()).remove(id),
            QueryEvent::Expire(id) => waiting_after(waiting, events.drop_last()).remove(id),
        }
    }
}

/// How many answers to a question are handed on in the course of these events.
pub open spec fn times_answered(waiting: Set<u64>, events: Seq<QueryEvent>, id: u64) -> nat
    decreases events.len(),
{
    if events.len() == 0 {
        0
    } else {
        times_answered(waiting, events.drop_last(), id) + if events.last() == QueryEvent::Answer(id)
            && waiting_after(waiting, events.drop_last()).contains(id) {
            1nat
        } else {
            0nat
        }
    }
}

/// However many answers come in for a question, one at most is handed on, and none
/// once it was forgotten; and once it was answered or forgotten, nothing of it is
/// left.
pub proof fn law_question_is_answered_once(waiting: Set<u64>, events: Seq<QueryEvent>, id: u64)
    ensures
        times_answered(waiting, events, id) <= 1,
        times_answered(waiting, events, id) == 1 ==> !waiting_after(waiting, events).contains(id),
        !waiting.contains(id) ==> times_answered(waiting, events, id) == 0 && !waiting_after(
            waiting,
            events,
        ).contains(id),
        events.len() > 0 && (events.last() == QueryEvent::Answer(id) || events.last()
            == QueryEvent::Expire(id)) ==> !waiting_after(waiting, events).contains(id),
    decreases events.len(),
{
    if events.len() > 0 {
        law_question_is_answered_once(waiting, events.drop_last(), id);
    }
}

/// A question goes out with its own number and just the coordinates that were asked for.
pub proof fn law_question_is_put_as_asked(question: Question, request_id: u64)
    ensures
        question matches Question::Block { x, y, z } ==> asking(question, request_id)
            == (ActionKind::GetBlock { request_id, x, y, z }),
        question matches Question::Region { x1, y1, z1, x2, y2, z2 } ==> asking(question, request_id)
            == (ActionKind::ScanRegion { request_id, x1, y1, z1, x2, y2, z2 }),
{
}

/// The first answer to a question that waits is handed on, whatever happens to others: it
/// comes to nothing only where the question was forgotten before.
pub proof fn law_first_answer_is_handed_on(
    waiting: Set<u64>,
    events: Seq<QueryEvent>,
    id: u64,
    i: int,
)
    requires
        waiting.contains(id),
        0 <= i < events.len(),
        events[i] == QueryEvent::Answer(id),
        forall|j: int|
            0 <= j < i ==> #[trigger] events[j] != QueryEvent::Answer(id) && events[j]
                != QueryEvent::Expire(id),
    ensures
        times_answered(waiting, events, id) == 1,
    decreases events.len(),
{
    let front = events.drop_last();
    law_question_is_answered_once(waiting, events, id);
    if i < front.len() {
        assert(front[i] == events[i]);
        assert forall|j: int| 0 <= j < i implies #[trigger] front[j] != QueryEvent::Answer(id)
            && front[j] != QueryEvent::Expire(id) by {
            assert(front[j] == events[j]);
        }
        law_first_answer_is_handed_on(waiting, front, id, i);
    } else {
        assert forall|j: int| 0 <= j < front.len() implies #[trigger] front[j]
            != QueryEvent::Answer(id) && front[j] != QueryEvent::Expire(id) by {
            assert(front[j] == events[j]);
        }
        lemma_still_waits(waiting, front, id);
        assert(events[i] == events.last());
    }
}

proof fn lemma_still_waits(waiting: Set<u64>, events: Seq<QueryEvent>, id: u64)
    requires
        waiting.contains(id),
        forall|j: int|
            0 <= j < events.len() ==> #[trigger] events[j] != QueryEvent::Answer(id) && events[j]
                != QueryEvent::Expire(id),
    ensures
        waiting_after(waiting, events).contains(id),
        times_answered(waiting, events, id) == 0,
    decreases events.len(),
{
    if events.len() > 0 {
        let front = events.drop_last();
        assert(events[events.len() - 1] == events.last());
        assert forall|j: int| 0 <= j < front.len() implies #[trigger] front[j]
            != QueryEvent::Answer(id) && front[j] != QueryEvent::Expire(id) by {
            assert(front[j] == events[j]);
        }
        lemma_still_waits(waiting, front, id);
    }
}

} // verus!
