//! The server's side of the assistant: requests to the sidecar process, its
//! supervision, and the routing of what it answers.
//!
//! The pipes, the process and the clock are the caller's business. Here it is
//! decided what is written, when the sidecar is started anew, when that is given
//! up, and which player an answer is for.

use vstd::prelude::*;

use crate::agent::QueryResult;
use crate::pos::{in_box, IVec3};
use crate::session::{ConnectionId, SessionMap, Sessions};
use crate::text::{join, joined, same_text, texts, trim, trimmed};

verus! {

/// How many seconds to wait before the sidecar is started again.
pub const RESTART_BACKOFF_SECS: u64 = 1;

/// Give up after this many failures to start the sidecar in a row.
pub const MAX_RESTART_FAILURES: u32 = 5;

/// A sidecar that ran for less than this many nanoseconds (ten seconds) crashed on
/// startup.
pub const HEALTHY_THRESHOLD_NANOS: u128 = 10_000_000_000;

/// Give up after this many crashes on startup in a row.
pub const MAX_RAPID_FAILURES: u32 = 5;

/// A player's request.
#[derive(Clone, Debug, PartialEq, Eq)]
pub struct AiRequest {
    pub connection: ConnectionId,
    pub prompt: String,
    /// Where the player stood, as the bit patterns of the three coordinates.
    pub pos: Option<[u32; 3]>,
}

/// A message to the task that drives the sidecar.
#[derive(Clone, Debug, PartialEq, Eq)]
pub enum BridgeMsg {
    Turn(AiRequest),
    /// The player has left.
    Evict(ConnectionId),
    /// The answer to the assistant's question with this number.
    Answer { request_id: u64, result: QueryResult },
}

/// One line to the sidecar.
#[derive(Clone, Debug, PartialEq, Eq)]
pub enum OutMsg {
    Turn { session: u64, prompt: String, pos: Option<[u32; 3]> },
    Evict { session: u64 },
    QueryResult { request_id: u64, result: QueryResult },
}

/// One action that the sidecar asks for.
#[derive(Clone, Debug, PartialEq, Eq)]
pub enum AgentAction {
    Say { text: String },
    /// What the assistant is doing right now.
    Status { text: String },
    PlaceBlock { x: i32, y: i32, z: i32, block: String },
    Fill { x1: i32, y1: i32, z1: i32, x2: i32, y2: i32, z2: i32, block: String },
    /// Read one block; the answer goes back with the same number.
    GetBlock { request_id: u64, x: i32, y: i32, z: i32 },
    /// Read a cuboid; the answer goes back with the same number.
    ScanRegion { request_id: u64, x1: i32, y1: i32, z1: i32, x2: i32, y2: i32, z2: i32 },
}

/// One line from the sidecar.
#[derive(Clone, Debug, PartialEq, Eq)]
pub struct InAction {
    pub session: u64,
    pub kind: AgentAction,
}

/// An action to apply to the world.
#[derive(Clone, Debug, PartialEq, Eq)]
pub enum ActionKind {
    Say(String),
    /// Shown to the player in a muted style.
    Status(String),
    PlaceBlock { pos: IVec3, block: String },
    Fill { min: IVec3, max: IVec3, block: String },
    GetBlock { request_id: u64, pos: IVec3 },
    ScanRegion { request_id: u64, min: IVec3, max: IVec3 },
}

/// An action to apply to the world, for one player.
#[derive(Clone, Debug, PartialEq, Eq)]
pub struct GameAction {
    pub connection: ConnectionId,
    pub kind: ActionKind,
}

/// The sessions once `msg` is on its way: a turn makes sure that the player has
/// one, an eviction takes it away.
pub open spec fn sessions_after(s: Sessions, msg: BridgeMsg) -> Sessions {
    match msg {
        BridgeMsg::Turn(req) => s.assigned(req.connection),
        BridgeMsg::Evict(connection) => s.without(connection),
        BridgeMsg::Answer { .. } => s,
    }
}

/// The line that `msg` becomes. Nothing is written for the eviction of a player
/// who never used the assistant.
pub open spec fn line_for(s: Sessions, msg: BridgeMsg) -> Option<OutMsg> {
    match msg {
        BridgeMsg::Turn(req) => Some(
            OutMsg::Turn {
                session: s.assigned(req.connection).session(req.connection)->0,
                prompt: req.prompt,
                pos: req.pos,
            },
        ),
        BridgeMsg::Evict(connection) => match s.session(connection) {
            Some(session) => Some(OutMsg::Evict { session }),
            None => None,
        },
        BridgeMsg::Answer { request_id, result } => Some(OutMsg::QueryResult { request_id, result }),
    }
}

/// The line to write for `msg`, if any; the sessions are kept up to date.
pub fn write_msg(sessions: &mut SessionMap, msg: BridgeMsg) -> (r: Option<OutMsg>)
    requires
        old(sessions).wf(),
        msg matches BridgeMsg::Turn(req) ==> old(sessions)@.session(req.connection) is Some || old(
            sessions,
        )@.next < u64::MAX,
    ensures
        final(sessions).wf(),
        final(sessions)@ == sessions_after(old(sessions)@, msg),
        r == line_for(old(sessions)@, msg),
{
    match msg {
        BridgeMsg::Turn(req) => {
            let session: u64 = sessions.assign(req.connection);
            Some(OutMsg::Turn { session, prompt: req.prompt, pos: req.pos })
        },
        BridgeMsg::Evict(connection) => match sessions.remove(connection) {
            Some(session) => Some(OutMsg::Evict { session }),
            None => None,
        },
        BridgeMsg::Answer { request_id, result } => Some(OutMsg::QueryResult { request_id, result }),
    }
}

/// The answer to a turn goes back to the player who took it, and to nobody else:
/// the session on the line is that player's own, before as after.
pub proof fn law_answers_reach_the_asker(s: Sessions, req: AiRequest, other: ConnectionId)
    requires
        s.valid(),
        s.next < u64::MAX,
    ensures
        ({
            let msg = BridgeMsg::Turn(req);
            let after = sessions_after(s, msg);
            &&& after.valid()
            &&& line_for(s, msg) matches Some(OutMsg::Turn { session, prompt, pos })
            &&& prompt == req.prompt
            &&& pos == req.pos
            &&& after.belongs(session, req.connection)
            &&& after.belongs(session, other) ==> other == req.connection
            &&& s.session(req.connection) matches Some(known) ==> known == session
        }),
{
}

/// Once a player was evicted, no answer finds them, and the sidecar is told the
/// session that was theirs.
pub proof fn law_evicted_players_get_no_answers(
    s: Sessions,
    connection: ConnectionId,
    session: u64,
)
    requires
        s.valid(),
    ensures
        ({
            let msg = BridgeMsg::Evict(connection);
            let after = sessions_after(s, msg);
            &&& after.valid()
            &&& !after.belongs(session, connection)
            &&& s.belongs(session, connection) ==> line_for(s, msg) == Some(
                OutMsg::Evict { session },
            ) && forall|c: ConnectionId| !(#[trigger] after.belongs(session, c))
        }),
{
}

/// Whether the sidecar is still alive after a line was written to it: `None` where
/// there was no line, else whether writing and flushing worked.
pub fn alive_after_write(written: Option<(bool, bool)>) -> (r: bool)
    ensures
        r == (written matches Some((wrote, flushed)) ==> wrote && flushed),
{
    match written {
        Some((wrote, flushed)) => wrote && flushed,
        None => true,
    }
}

/// What happens while one sidecar process runs.
#[derive(Clone, Copy, PartialEq, Eq, Structural, Debug)]
pub enum SessionEvent {
    /// The pipes of the process could not be had.
    NoPipes,
    /// The process exited, or waiting for it failed.
    ChildExited,
    /// A message was handled; whether the process is still alive after it.
    Handled { alive: bool },
    /// Nobody can send messages any more.
    ChannelClosed,
}

/// What to do about it.
#[derive(Clone, Copy, PartialEq, Eq, Structural, Debug)]
pub enum SessionStep {
    Continue,
    /// Stop driving this process, and start a new one.
    Restart,
    /// Stop for good.
    ShutDown,
}

/// Decides how the drive of one sidecar process goes on.
pub fn run_session(event: SessionEvent) -> (r: SessionStep)
    ensures
        r == (match event {
            SessionEvent::NoPipes => SessionStep::Restart,
            SessionEvent::ChildExited => SessionStep::Restart,
            SessionEvent::Handled { alive } => if alive {
                SessionStep::Continue
            } else {
                SessionStep::Restart
            },
            SessionEvent::ChannelClosed => SessionStep::ShutDown,
        }),
{
    match event {
        SessionEvent::NoPipes => SessionStep::Restart,
        SessionEvent::ChildExited => SessionStep::Restart,
        SessionEvent::Handled { alive } => if alive {
            SessionStep::Continue
        } else {
            SessionStep::Restart
        },
        SessionEvent::ChannelClosed => SessionStep::ShutDown,
    }
}

/// What the supervisor of the sidecar learns.
#[derive(Clone, Copy, PartialEq, Eq, Structural, Debug)]
pub enum SupervisorEvent {
    /// The drive of a process ended: whether to start a new one, and for how many
    /// nanoseconds it ran.
    SessionEnded { restart: bool, ran_nanos: u128 },
    /// An attempt to start a process; whether it worked.
    Spawned { ok: bool },
}

/// What the supervisor does next.
#[derive(Clone, Copy, PartialEq, Eq, Structural, Debug)]
pub enum SupervisorAction {
    /// Drive the process that was just started.
    Run,
    /// Wait for [`RESTART_BACKOFF_SECS`] and try to start a process.
    WaitAndSpawn,
    /// Nobody needs the sidecar any more.
    ShutDown,
    /// The sidecar keeps failing; the assistant stays off.
    GiveUp,
}

/// The supervisor of the sidecar.
#[derive(Clone, Copy, PartialEq, Eq, Structural, Debug)]
pub struct Supervisor {
    /// Crashes on startup in a row.
    pub rapid_failures: u32,
    /// Failed attempts to start a process, since the last one ended.
    pub spawn_failures: u32,
}

impl Supervisor {
    /// The counts stay below the limits as long as the supervisor has not given
    /// up.
    pub open spec fn wf(self) -> bool {
        self.rapid_failures < MAX_RAPID_FAILURES && self.spawn_failures < MAX_RESTART_FAILURES
    }

    /// The supervisor after an event, and what it does next.
    pub open spec fn stepped(self, event: SupervisorEvent) -> (Supervisor, SupervisorAction) {
        match event {
            SupervisorEvent::SessionEnded { restart, ran_nanos } => {
                let rapid = if ran_nanos < HEALTHY_THRESHOLD_NANOS {
                    (self.rapid_failures + 1) as u32
                } else {
                    0
                };
                if !restart {
                    (self, SupervisorAction::ShutDown)
                } else if rapid >= MAX_RAPID_FAILURES {
                    (
                        Supervisor { rapid_failures: rapid, spawn_failures: self.spawn_failures },
                        SupervisorAction::GiveUp,
                    )
                } else {
                    (
                        Supervisor { rapid_failures: rapid, spawn_failures: 0 },
                        SupervisorAction::WaitAndSpawn,
                    )
                }
            },
            SupervisorEvent::Spawned { ok } => {
                let failures = (self.spawn_failures + 1) as u32;
                if ok {
                    (self, SupervisorAction::Run)
                } else if failures >= MAX_RESTART_FAILURES {
                    (
                        Supervisor { rapid_failures: self.rapid_failures, spawn_failures: failures },
                        SupervisorAction::GiveUp,
                    )
                } else {
                    (
                        Supervisor { rapid_failures: self.rapid_failures, spawn_failures: failures },
                        SupervisorAction::WaitAndSpawn,
                    )
                }
            },
        }
    }

    /// A supervisor whose first process was just started.
    pub fn new() -> (r: Self)
        ensures
            r == (Supervisor { rapid_failures: 0, spawn_failures: 0 }),
            r.wf(),
    {
        Supervisor { rapid_failures: 0, spawn_failures: 0 }
    }

    /// Decides what to do after an event. Once it has given up there is nothing left
    /// to decide.
    pub fn supervise(&mut self, event: SupervisorEvent) -> (r: SupervisorAction)
        requires
            old(self).wf(),
        ensures
            (*final(self), r) == old(self).stepped(event),
            r != SupervisorAction::GiveUp ==> final(self).wf(),
    {
        match event {
            SupervisorEvent::SessionEnded { restart, ran_nanos } => {
                if !restart {
                    return SupervisorAction::ShutDown;
                }
                if ran_nanos < HEALTHY_THRESHOLD_NANOS {
                    self.rapid_failures = self.rapid_failures + 1;
                    if self.rapid_failures >= MAX_RAPID_FAILURES {
                        return SupervisorAction::GiveUp;
                    }
                } else {
                    self.rapid_failures = 0;
                }
                self.spawn_failures = 0;
                SupervisorAction::WaitAndSpawn
            },
            SupervisorEvent::Spawned { ok } => {
                if ok {
                    return SupervisorAction::Run;
                }
                self.spawn_failures = self.spawn_failures + 1;
                if self.spawn_failures >= MAX_RESTART_FAILURES {
                    SupervisorAction::GiveUp
                } else {
                    SupervisorAction::WaitAndSpawn
                }
            },
        }
    }
}

/// The supervisor after `n` processes in a row that could be started and crashed
/// on startup, and what it does then.
pub open spec fn after_crashes(s: Supervisor, ran_nanos: Seq<u128>) -> (Supervisor, SupervisorAction)
    decreases ran_nanos.len(),
{
    if ran_nanos.len() == 0 {
        (s, SupervisorAction::Run)
    } else {
        let (before, action) = after_crashes(s, ran_nanos.drop_last());
        if action != SupervisorAction::Run {
            (before, action)
        } else {
            let (ended, then_do) = before.stepped(
                SupervisorEvent::SessionEnded { restart: true, ran_nanos: ran_nanos.last() },
            );
            if then_do == SupervisorAction::WaitAndSpawn {
                ended.stepped(SupervisorEvent::Spawned { ok: true })
            } else {
                (ended, then_do)
            }
        }
    }
}

/// A sidecar that crashes right after every start is given up: not before its
/// fifth crash in a row, and on the fifth for good.
pub proof fn law_crash_loop_is_given_up(s: Supervisor, ran_nanos: Seq<u128>)
    requires
        s.rapid_failures == 0,
        s.spawn_failures < MAX_RESTART_FAILURES,
        forall|i: int|
            0 <= i < ran_nanos.len() ==> (#[trigger] ran_nanos[i]) < HEALTHY_THRESHOLD_NANOS,
    ensures
        ran_nanos.len() < 5 ==> after_crashes(s, ran_nanos).1 == SupervisorAction::Run,
        ran_nanos.len() >= 5 ==> after_crashes(s, ran_nanos).1 == SupervisorAction::GiveUp,
        ran_nanos.len() < 5 ==> after_crashes(s, ran_nanos).0.rapid_failures == ran_nanos.len(),
    decreases ran_nanos.len(),
{
    if ran_nanos.len() > 0 {
        let front = ran_nanos.drop_last();
        assert forall|i: int| 0 <= i < front.len() implies (#[trigger] front[i])
            < HEALTHY_THRESHOLD_NANOS by {
            assert(front[i] == ran_nanos[i]);
        }
        law_crash_loop_is_given_up(s, front);
        assert(ran_nanos.last() < HEALTHY_THRESHOLD_NANOS);
    }
}

/// A sidecar that ran long enough is always started again, whatever came before.
pub proof fn law_healthy_run_is_forgiven(s: Supervisor, ran_nanos: u128)
    requires
        s.wf(),
        ran_nanos >= HEALTHY_THRESHOLD_NANOS,
    ensures
        s.stepped(SupervisorEvent::SessionEnded { restart: true, ran_nanos }) == (
            Supervisor { rapid_failures: 0, spawn_failures: 0 },
            SupervisorAction::WaitAndSpawn,
        ),
{
}

/// The supervisor after `n` failed attempts to start a process, and what it does
/// then.
pub open spec fn after_failed_spawns(s: Supervisor, n: nat) -> (Supervisor, SupervisorAction)
    decreases n,
{
    if n == 0 {
        (s, SupervisorAction::WaitAndSpawn)
    } else {
        let (before, action) = after_failed_spawns(s, (n - 1) as nat);
        if action == SupervisorAction::WaitAndSpawn {
            before.stepped(SupervisorEvent::Spawned { ok: false })
        } else {
            (before, action)
        }
    }
}

/// Starting the sidecar is tried five times and no more.
pub proof fn law_failing_start_is_given_up(s: Supervisor, n: nat)
    requires
        s.wf(),
        s.spawn_failures == 0,
    ensures
        n < 5 ==> after_failed_spawns(s, n).1 == SupervisorAction::WaitAndSpawn,
        n >= 5 ==> after_failed_spawns(s, n).1 == SupervisorAction::GiveUp,
        n < 5 ==> after_failed_spawns(s, n).0.spawn_failures == n,
    decreases n,
{
    if n > 0 {
        law_failing_start_is_given_up(s, (n - 1) as nat);
    }
}

/// Whether an event is the end of a process that crashed on startup.
pub open spec fn is_crash(event: SupervisorEvent) -> bool {
    event matches SupervisorEvent::SessionEnded { restart, ran_nanos } && restart && ran_nanos
        < HEALTHY_THRESHOLD_NANOS
}

/// How many processes crashed on startup in the course of `events`, since one last ran
/// long enough.
pub open spec fn crashes_in_a_row(events: Seq<SupervisorEvent>) -> nat
    decreases events.len(),
{
    if events.len() == 0 {
        0
    } else {
        let before = crashes_in_a_row(events.drop_last());
        match events.last() {
            SupervisorEvent::SessionEnded { .. } => if is_crash(events.last()) {
                before + 1
            } else {
                0
            },
            SupervisorEvent::Spawned { .. } => before,
        }
    }
}

/// How many attempts to start a process failed in the course of `events`, since one
/// last ended.
pub open spec fn failed_starts(events: Seq<SupervisorEvent>) -> nat
    decreases events.len(),
{
    if events.len() == 0 {
        0
    } else {
        let before = failed_starts(events.drop_last());
        match events.last() {
            SupervisorEvent::SessionEnded { .. } => 0,
            SupervisorEvent::Spawned { ok } => if ok {
                before
            } else {
                before + 1
            },
        }
    }
}

/// A supervisor after `events`, and what it does then. Once it has given up or shut
/// down, nothing more happens.
pub open spec fn after_course(s: Supervisor, events: Seq<SupervisorEvent>) -> (
    Supervisor,
    SupervisorAction,
)
    decreases events.len(),
{
    if events.len() == 0 {
        (s, SupervisorAction::Run)
    } else {
        let (before, action) = after_course(s, events.drop_last());
        if action == SupervisorAction::GiveUp || action == SupervisorAction::ShutDown {
            (before, action)
        } else {
            before.stepped(events.last())
        }
    }
}

/// However crashes on startup, failed starts and healthy runs follow each other: a
/// supervisor that goes on has seen fewer than five crashes in a row and fewer than
/// five failed starts in a row, and it gives up on the fifth of either, and only then.
pub proof fn law_any_course_is_given_up_on_the_fifth_failure(events: Seq<SupervisorEvent>)
    ensures
        ({
            let fresh = Supervisor { rapid_failures: 0, spawn_failures: 0 };
            let (s, action) = after_course(fresh, events);
            let before = after_course(fresh, events.drop_last()).1;
            &&& action == SupervisorAction::Run || action == SupervisorAction::WaitAndSpawn
                ==> s.rapid_failures == crashes_in_a_row(events) && s.spawn_failures
                == failed_starts(events) && crashes_in_a_row(events) < 5 && failed_starts(events)
                < 5
            &&& events.len() > 0 && before != SupervisorAction::GiveUp && before
                != SupervisorAction::ShutDown ==> (action == SupervisorAction::GiveUp <==> (is_crash(
                events.last(),
            ) && crashes_in_a_row(events) == 5) || (events.last() == SupervisorEvent::Spawned {
                ok: false,
            } && failed_starts(events) == 5))
            &&& events.len() > 0 && before == SupervisorAction::GiveUp ==> action
                == SupervisorAction::GiveUp
        }),
    decreases events.len(),
{
    if events.len() > 0 {
        law_any_course_is_given_up_on_the_fifth_failure(events.drop_last());
    }
}

/// A line from the sidecar without the space around it, or `None` where nothing
/// is left of it.
pub fn reader_line(line: &str) -> (r: Option<String>)
    ensures
        match r {
            Some(rest) => rest@ == trimmed(line@) && rest@.len() > 0,
            None => trimmed(line@).len() == 0,
        },
{
    let rest = trim(line);
    if is_empty(&rest) {
        None
    } else {
        Some(rest)
    }
}

fn is_empty(s: &String) -> (r: bool)
    ensures
        r == (s@.len() == 0),
{
    let r = same_text(s.as_str(), "");
    proof {
        reveal_strlit("");
        if s@.len() == 0 {
            assert(s@ =~= ""@);
        }
    }
    r
}

/// The smaller of two coordinates.
pub open spec fn low(a: i32, b: i32) -> i32 {
    if a <= b {
        a
    } else {
        b
    }
}

/// The larger of two coordinates.
pub open spec fn high(a: i32, b: i32) -> i32 {
    if a >= b {
        a
    } else {
        b
    }
}

/// What an action of the sidecar means for the world; the corners of a cuboid are
/// sorted.
pub open spec fn meaning(action: AgentAction) -> ActionKind {
    match action {
        AgentAction::Say { text } => ActionKind::Say(text),
        AgentAction::Status { text } => ActionKind::Status(text),
        AgentAction::PlaceBlock { x, y, z, block } => ActionKind::PlaceBlock {
            pos: IVec3 { x, y, z },
            block,
        },
        AgentAction::GetBlock { request_id, x, y, z } => ActionKind::GetBlock {
            request_id,
            pos: IVec3 { x, y, z },
        },
        AgentAction::ScanRegion { request_id, x1, y1, z1, x2, y2, z2 } => ActionKind::ScanRegion {
            request_id,
            min: IVec3 { x: low(x1, x2), y: low(y1, y2), z: low(z1, z2) },
            max: IVec3 { x: high(x1, x2), y: high(y1, y2), z: high(z1, z2) },
        },
        AgentAction::Fill { x1, y1, z1, x2, y2, z2, block } => ActionKind::Fill {
            min: IVec3 { x: low(x1, x2), y: low(y1, y2), z: low(z1, z2) },
            max: IVec3 { x: high(x1, x2), y: high(y1, y2), z: high(z1, z2) },
            block,
        },
    }
}

fn lower(a: i32, b: i32) -> (r: i32)
    ensures
        r == low(a, b),
{
    if a <= b {
        a
    } else {
        b
    }
}

fn higher(a: i32, b: i32) -> (r: i32)
    ensures
        r == high(a, b),
{
    if a >= b {
        a
    } else {
        b
    }
}

/// What an action of the sidecar means for the world.
pub fn interpret(action: AgentAction) -> (r: ActionKind)
    ensures
        r == meaning(action),
        action matches AgentAction::Fill { x1, y1, z1, x2, y2, z2, block } ==> {
            &&& r matches ActionKind::Fill { min, max, block: with }
            &&& with == block
            &&& forall|p: IVec3| #[trigger]
                in_box(p, min, max) <==> (x1 <= p.x <= x2 || x2 <= p.x <= x1) && (y1 <= p.y <= y2
                    || y2 <= p.y <= y1) && (z1 <= p.z <= z2 || z2 <= p.z <= z1)
        },
        action matches AgentAction::ScanRegion { request_id, x1, y1, z1, x2, y2, z2 } ==> {
            &&& r matches ActionKind::ScanRegion { request_id: id, min, max }
            &&& id == request_id
            &&& forall|p: IVec3| #[trigger]
                in_box(p, min, max) <==> (x1 <= p.x <= x2 || x2 <= p.x <= x1) && (y1 <= p.y <= y2
                    || y2 <= p.y <= y1) && (z1 <= p.z <= z2 || z2 <= p.z <= z1)
        },
{
    match action {
        AgentAction::Say { text } => ActionKind::Say(text),
        AgentAction::Status { text } => ActionKind::Status(text),
        AgentAction::PlaceBlock { x, y, z, block } => ActionKind::PlaceBlock {
            pos: IVec3::new(x, y, z),
            block,
        },
        AgentAction::GetBlock { request_id, x, y, z } => ActionKind::GetBlock {
            request_id,
            pos: IVec3::new(x, y, z),
        },
        AgentAction::ScanRegion { request_id, x1, y1, z1, x2, y2, z2 } => ActionKind::ScanRegion {
            request_id,
            min: IVec3::new(lower(x1, x2), lower(y1, y2), lower(z1, z2)),
            max: IVec3::new(higher(x1, x2), higher(y1, y2), higher(z1, z2)),
        },
        AgentAction::Fill { x1, y1, z1, x2, y2, z2, block } => ActionKind::Fill {
            min: IVec3::new(lower(x1, x2), lower(y1, y2), lower(z1, z2)),
            max: IVec3::new(higher(x1, x2), higher(y1, y2), higher(z1, z2)),
            block,
        },
    }
}

/// The action for the world that a line from the sidecar asks for, addressed to
/// the player whose session it names; `None` where nobody has that session.
pub fn route_action(sessions: &SessionMap, action: InAction) -> (r: Option<GameAction>)
    requires
        sessions.wf(),
    ensures
        match r {
            Some(routed) => sessions@.belongs(action.session, routed.connection) && routed.kind
                == meaning(action.kind),
            None => forall|c: ConnectionId| !(#[trigger] sessions@.belongs(action.session, c)),
        },
{
    match sessions.resolve(action.session) {
        Some(connection) => Some(GameAction { connection, kind: interpret(action.kind) }),
        None => None,
    }
}

/// What the task that reads from the sidecar meets.
#[derive(Clone, Copy, PartialEq, Eq, Structural, Debug)]
pub enum ReaderEvent {
    /// A line that was empty, could not be read, or was for nobody.
    Ignored,
    /// A line whose action was handed on; whether anybody still takes actions.
    Routed { delivered: bool },
    /// The sidecar closed its output.
    EndOfOutput,
    /// Reading failed.
    Failed,
}

/// Whether the reader goes on.
pub fn reader_continues(event: ReaderEvent) -> (r: bool)
    ensures
        r == (match event {
            ReaderEvent::Ignored => true,
            ReaderEvent::Routed { delivered } => delivered,
            ReaderEvent::EndOfOutput => false,
            ReaderEvent::Failed => false,
        }),
{
    match event {
        ReaderEvent::Ignored => true,
        ReaderEvent::Routed { delivered } => delivered,
        ReaderEvent::EndOfOutput => false,
        ReaderEvent::Failed => false,
    }
}

/// The corners of a fill are sorted, so that the cuboid between them is the same
/// whichever way round they are given.
pub proof fn law_fill_corners_are_sorted(action: AgentAction)
    requires
        action is Fill,
    ensures
        meaning(action) matches ActionKind::Fill { min, max, .. } && min.x <= max.x && min.y <= max.y
            && min.z <= max.z && meaning(action) == meaning(swapped(action)),
{
}

/// The cuboid of a fill or a scan is the one that the two corners span: a position lies in
/// it exactly where each of its coordinates lies between the two given ones, whichever way
/// round these are. What to fill it with, and who asked, is as it was given.
pub proof fn law_cuboid_spans_the_corners(action: AgentAction, p: IVec3)
    ensures
        action matches AgentAction::Fill { x1, y1, z1, x2, y2, z2, block } ==> {
            &&& meaning(action) matches ActionKind::Fill { min, max, block: with }
            &&& with == block
            &&& in_box(p, min, max) <==> (x1 <= p.x <= x2 || x2 <= p.x <= x1) && (y1 <= p.y <= y2
                || y2 <= p.y <= y1) && (z1 <= p.z <= z2 || z2 <= p.z <= z1)
            &&& in_box(IVec3 { x: x1, y: y1, z: z1 }, min, max)
            &&& in_box(IVec3 { x: x2, y: y2, z: z2 }, min, max)
            &&& (min.x == x1 && max.x == x2) || (min.x == x2 && max.x == x1)
            &&& (min.y == y1 && max.y == y2) || (min.y == y2 && max.y == y1)
            &&& (min.z == z1 && max.z == z2) || (min.z == z2 && max.z == z1)
        },
        action matches AgentAction::ScanRegion { request_id, x1, y1, z1, x2, y2, z2 } ==> {
            &&& meaning(action) matches ActionKind::ScanRegion { request_id: id, min, max }
            &&& id == request_id
            &&& in_box(p, min, max) <==> (x1 <= p.x <= x2 || x2 <= p.x <= x1) && (y1 <= p.y <= y2
                || y2 <= p.y <= y1) && (z1 <= p.z <= z2 || z2 <= p.z <= z1)
            &&& in_box(IVec3 { x: x1, y: y1, z: z1 }, min, max)
            &&& in_box(IVec3 { x: x2, y: y2, z: z2 }, min, max)
            &&& (min.x == x1 && max.x == x2) || (min.x == x2 && max.x == x1)
            &&& (min.y == y1 && max.y == y2) || (min.y == y2 && max.y == y1)
            &&& (min.z == z1 && max.z == z2) || (min.z == z2 && max.z == z1)
        },
{
}

/// An action that names one block means the block at just those coordinates, and a text
/// is handed on as it is.
pub proof fn law_single_blocks_and_texts_are_handed_on(action: AgentAction)
    ensures
        action matches AgentAction::PlaceBlock { x, y, z, block } ==> meaning(action) matches
            ActionKind::PlaceBlock { pos, block: with } && pos.x == x && pos.y == y && pos.z == z
            && with == block,
        action matches AgentAction::GetBlock { request_id, x, y, z } ==> meaning(action) matches
            ActionKind::GetBlock { request_id: id, pos } && pos.x == x && pos.y == y && pos.z == z
            && id == request_id,
        action matches AgentAction::Say { text } ==> meaning(action) == ActionKind::Say(text),
        action matches AgentAction::Status { text } ==> meaning(action) == ActionKind::Status(text),
{
}

/// A fill with its two corners exchanged.
pub open spec fn swapped(action: AgentAction) -> AgentAction {
    match action {
        AgentAction::Fill { x1, y1, z1, x2, y2, z2, block } => AgentAction::Fill {
            x1: x2,
            y1: y2,
            z1: z2,
            x2: x1,
            y2: y1,
            z2: z1,
            block,
        },
        _ => action,
    }
}

/// What a use of the `/ai` command comes to.
#[derive(Clone, Debug, PartialEq, Eq)]
pub enum AiOutcome {
    /// Tell the player.
    Reply(&'static str),
    /// Send the request to the assistant, and tell the player whether that worked.
    Enqueue(AiRequest),
}

/// The `/ai` command: everything behind it is the prompt.
#[derive(Clone, Debug, PartialEq, Eq)]
pub struct AiCommand {
    pub prompt: Vec<String>,
}

impl AiCommand {
    /// What the command comes to for the player at `connection`, who stands at
    /// `pos`; `available` is whether there is an assistant at all.
    pub fn execute(
        self,
        connection: ConnectionId,
        pos: Option<[u32; 3]>,
        available: bool,
    ) -> (r: AiOutcome)
        ensures
            ({
                let prompt = joined(texts(self.prompt@), " "@);
                if trimmed(prompt).len() == 0 {
                    r matches AiOutcome::Reply(text) && text@ == "§cUsage: /ai <what you want>"@
                } else if !available {
                    r matches AiOutcome::Reply(text) && text@
                        == "§cThe AI assistant is not available on this server."@
                } else {
                    r matches AiOutcome::Enqueue(req) && req.connection == connection
                        && req.prompt@ == prompt && req.pos == pos
                }
            }),
    {
        let prompt = join(&self.prompt, " ");
        if is_empty(&trim(prompt.as_str())) {
            return AiOutcome::Reply("§cUsage: /ai <what you want>");
        }
        if !available {
            return AiOutcome::Reply("§cThe AI assistant is not available on this server.");
        }
        AiOutcome::Enqueue(AiRequest { connection, prompt, pos })
    }

    /// What the player is told once the request was sent, or could not be.
    pub fn acknowledge(sent: bool) -> (r: &'static str)
        ensures
            r@ == (if sent {
                "§7[AI] thinking…"@
            } else {
                "§cThe AI assistant is busy, try again."@
            }),
    {
        if sent {
            "§7[AI] thinking…"
        } else {
            "§cThe AI assistant is busy, try again."
        }
    }
}

/// The message to send when a player leaves: none where there is no assistant, or
/// the player has no connection.
pub fn on_player_disconnect(available: bool, connection: Option<ConnectionId>) -> (r: Option<
    BridgeMsg,
>)
    ensures
        r == (match connection {
            Some(connection) => if available {
                Some(BridgeMsg::Evict(connection))
            } else {
                None
            },
            None => None,
        }),
{
    match connection {
        Some(connection) => if available {
            Some(BridgeMsg::Evict(connection))
        } else {
            None
        },
        None => None,
    }
}

/// The program to start as the sidecar: the configured one, or the one that a debug
/// build leaves below the home directory `home`.
pub fn agent_bin(configured: Option<String>, home: &str) -> (r: String)
    ensures
        r@ == (match configured {
            Some(bin) => bin@,
            None => home@ + "/.cargo/target/debug/hyperion-ai-agent"@,
        }),
{
    match configured {
        Some(bin) => bin,
        None => {
            let mut bin = home.to_owned();
            bin.append("/.cargo/target/debug/hyperion-ai-agent");
            bin
        },
    }
}

/// The supervisor drives a process only after it was started, and stops for good only where
/// nobody needs it any more; a process that ends is started again, unless it is the fifth in
/// a row that ran for less than ten seconds.
pub proof fn law_supervisor_acts_on_what_it_learns(s: Supervisor, event: SupervisorEvent)
    requires
        s.wf(),
    ensures
        s.stepped(event).1 == SupervisorAction::Run <==> event == (SupervisorEvent::Spawned {
            ok: true,
        }),
        event matches SupervisorEvent::SessionEnded { restart, ran_nanos } ==> {
            let (after, action) = s.stepped(event);
            &&& action == SupervisorAction::ShutDown <==> !restart
            &&& restart && ran_nanos >= 10_000_000_000 ==> action == SupervisorAction::WaitAndSpawn
                && after.rapid_failures == 0
            &&& restart && ran_nanos < 10_000_000_000 ==> after.rapid_failures == s.rapid_failures + 1
                && (action == SupervisorAction::GiveUp <==> s.rapid_failures >= 4) && (action
                == SupervisorAction::WaitAndSpawn <==> s.rapid_failures < 4)
        },
        event == (SupervisorEvent::Spawned { ok: false }) ==> {
            let (after, action) = s.stepped(event);
            &&& after.spawn_failures == s.spawn_failures + 1
            &&& after.rapid_failures == s.rapid_failures
            &&& action == SupervisorAction::GiveUp <==> s.spawn_failures >= 4
            &&& action == SupervisorAction::WaitAndSpawn <==> s.spawn_failures < 4
        },
{
}

/// An answer about the world goes out with the number of its question and as it is, and
/// leaves all sessions alone; a player who never had a session leaves without a word.
pub proof fn law_answers_leave_sessions_alone(
    s: Sessions,
    request_id: u64,
    result: QueryResult,
    connection: ConnectionId,
)
    ensures
        sessions_after(s, BridgeMsg::Answer { request_id, result }) == s,
        line_for(s, BridgeMsg::Answer { request_id, result }) == Some(
            OutMsg::QueryResult { request_id, result },
        ),
        s.session(connection) is None ==> line_for(s, BridgeMsg::Evict(connection)) is None,
        s.session(connection) matches Some(session) ==> line_for(s, BridgeMsg::Evict(connection))
            == Some(OutMsg::Evict { session }),
{
}

} // verus!
