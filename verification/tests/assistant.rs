use hyperion::actions::{
    apply_action, drain_ai_actions, fill_region, fill_with, place_block, place_state, report_unknown,
    Outgoing,
};
use hyperion::agent::{
    announce, call_fill, call_place_block, call_say, emit, emit_status, get_block_text, invalid_args,
    message_kind, scan_region_text, Beat, BlockInfo, GameTool, InMsg, MsgKind, OutLine, QueryResult,
    TurnRequest, SYSTEM_PROMPT,
};
use hyperion::agent::ActionKind as Kind;
use hyperion::block::BlockState;
use hyperion::blocks::Blocks;
use hyperion::bridge::{
    agent_bin, alive_after_write, on_player_disconnect, reader_continues, reader_line, route_action,
    run_session, write_msg, ActionKind, AgentAction, AiCommand, AiOutcome, AiRequest, BridgeMsg,
    GameAction, InAction, OutMsg, ReaderEvent, SessionEvent, SessionStep, Supervisor,
    SupervisorAction, SupervisorEvent,
};
use hyperion::chunk::{Column, ColumnData};
use hyperion::pos::{I16Vec2, IVec3};
use hyperion::query::{run_query, Pending, Question, Waited};
use hyperion::session::{ConnectionId, SessionMap};
use hyperion::sidecar::{
    config_path, env_backend, select_model, serve_offline, BackendError, Served, Sidecar,
};

const ALICE: ConnectionId = ConnectionId { raw: 100 };
const BOB: ConnectionId = ConnectionId { raw: 200 };
const STONE: BlockState = BlockState { raw: 1 };

fn world() -> Blocks {
    let mut blocks = Blocks::empty();
    blocks.load_pending(vec![Column::new(
        I16Vec2::new(0, 0),
        ColumnData::filled(BlockState::air()),
        Vec::new(),
    )]);
    blocks
}

fn chat(to: ConnectionId, text: &str) -> Outgoing {
    Outgoing::Chat { to, text: text.to_string() }
}

fn update(x: i32, y: i32, z: i32, state: BlockState) -> Outgoing {
    Outgoing::BlockUpdate { chunk: I16Vec2::new(0, 0), pos: IVec3::new(x, y, z), state }
}

#[test]
fn sessions_are_stable_and_not_reused() {
    let mut sessions = SessionMap::new();
    assert_eq!(sessions.assign(ALICE), 1);
    assert_eq!(sessions.assign(BOB), 2);
    assert_eq!(sessions.assign(ALICE), 1);
    assert_eq!(sessions.resolve(1), Some(ALICE));
    assert_eq!(sessions.resolve(2), Some(BOB));
    assert_eq!(sessions.resolve(3), None);
    assert_eq!(sessions.remove(ALICE), Some(1));
    assert_eq!(sessions.remove(ALICE), None);
    assert_eq!(sessions.resolve(1), None);
    assert_eq!(sessions.resolve(2), Some(BOB));
    assert_eq!(sessions.assign(ALICE), 3);
}

#[test]
fn messages_become_lines() {
    let mut sessions = SessionMap::new();
    let turn = || {
        BridgeMsg::Turn(AiRequest {
            connection: ALICE,
            prompt: "build a tower".to_string(),
            pos: Some([1, 2, 3]),
        })
    };
    let line = OutMsg::Turn { session: 1, prompt: "build a tower".to_string(), pos: Some([1, 2, 3]) };
    assert_eq!(write_msg(&mut sessions, turn()), Some(line.clone()));
    assert_eq!(write_msg(&mut sessions, turn()), Some(line));
    assert_eq!(write_msg(&mut sessions, BridgeMsg::Evict(BOB)), None);
    assert_eq!(
        write_msg(&mut sessions, BridgeMsg::Evict(ALICE)),
        Some(OutMsg::Evict { session: 1 })
    );
    assert_eq!(write_msg(&mut sessions, BridgeMsg::Evict(ALICE)), None);
}

#[test]
fn answers_reach_the_asker_until_eviction() {
    let mut sessions = SessionMap::new();
    let ask = |connection| {
        BridgeMsg::Turn(AiRequest { connection, prompt: "hello".to_string(), pos: None })
    };
    let session = |line| match line {
        Some(OutMsg::Turn { session, .. }) => session,
        other => panic!("{other:?}"),
    };
    let alice = session(write_msg(&mut sessions, ask(ALICE)));
    let bob = session(write_msg(&mut sessions, ask(BOB)));
    assert_eq!(sessions.resolve(alice), Some(ALICE));
    assert_eq!(sessions.resolve(bob), Some(BOB));
    assert_eq!(
        write_msg(&mut sessions, BridgeMsg::Evict(ALICE)),
        Some(OutMsg::Evict { session: alice })
    );
    assert_eq!(sessions.resolve(alice), None);
    assert_eq!(sessions.resolve(bob), Some(BOB));
}

#[test]
fn a_broken_pipe_restarts_the_sidecar() {
    assert!(alive_after_write(None));
    assert!(alive_after_write(Some((true, true))));
    assert!(!alive_after_write(Some((false, true))));
    assert!(!alive_after_write(Some((true, false))));
    assert_eq!(run_session(SessionEvent::Handled { alive: true }), SessionStep::Continue);
    assert_eq!(run_session(SessionEvent::Handled { alive: false }), SessionStep::Restart);
    assert_eq!(run_session(SessionEvent::ChildExited), SessionStep::Restart);
    assert_eq!(run_session(SessionEvent::NoPipes), SessionStep::Restart);
    assert_eq!(run_session(SessionEvent::ChannelClosed), SessionStep::ShutDown);
}

#[test]
fn a_crash_loop_is_given_up_on_the_fifth_crash() {
    let crash = SupervisorEvent::SessionEnded { restart: true, ran_nanos: 9_999_999_999 };
    let mut supervisor = Supervisor::new();
    for _ in 0..4 {
        assert_eq!(supervisor.supervise(crash), SupervisorAction::WaitAndSpawn);
        assert_eq!(
            supervisor.supervise(SupervisorEvent::Spawned { ok: true }),
            SupervisorAction::Run
        );
    }
    assert_eq!(supervisor.supervise(crash), SupervisorAction::GiveUp);
}

#[test]
fn a_healthy_run_is_forgiven() {
    let crash = SupervisorEvent::SessionEnded { restart: true, ran_nanos: 0 };
    let healthy = SupervisorEvent::SessionEnded { restart: true, ran_nanos: 10_000_000_000 };
    let mut supervisor = Supervisor::new();
    for _ in 0..4 {
        supervisor.supervise(crash);
    }
    assert_eq!(supervisor.supervise(healthy), SupervisorAction::WaitAndSpawn);
    assert_eq!(supervisor.rapid_failures, 0);
    let stop = SupervisorEvent::SessionEnded { restart: false, ran_nanos: 0 };
    assert_eq!(supervisor.supervise(stop), SupervisorAction::ShutDown);
}

#[test]
fn starting_is_tried_five_times() {
    let mut supervisor = Supervisor::new();
    let failed = SupervisorEvent::Spawned { ok: false };
    for _ in 0..4 {
        assert_eq!(supervisor.supervise(failed), SupervisorAction::WaitAndSpawn);
    }
    assert_eq!(supervisor.supervise(failed), SupervisorAction::GiveUp);
}

#[test]
fn lines_from_the_sidecar_are_routed() {
    let mut sessions = SessionMap::new();
    sessions.assign(BOB);
    assert_eq!(reader_line("  {\"session\":1} \n"), Some("{\"session\":1}".to_string()));
    assert_eq!(reader_line(" \t "), None);
    let say = |session| InAction { session, kind: AgentAction::Say { text: "hi".to_string() } };
    assert_eq!(
        route_action(&sessions, say(1)),
        Some(GameAction { connection: BOB, kind: ActionKind::Say("hi".to_string()) })
    );
    assert_eq!(route_action(&sessions, say(2)), None);
    let fill = InAction {
        session: 1,
        kind: AgentAction::Fill { x1: 5, y1: -2, z1: 0, x2: -5, y2: 7, z2: 0, block: "glass".to_string() },
    };
    assert_eq!(
        route_action(&sessions, fill).unwrap().kind,
        ActionKind::Fill {
            min: IVec3::new(-5, -2, 0),
            max: IVec3::new(5, 7, 0),
            block: "glass".to_string()
        }
    );
    let place = InAction {
        session: 1,
        kind: AgentAction::PlaceBlock { x: 1, y: 2, z: 3, block: "dirt".to_string() },
    };
    assert_eq!(
        route_action(&sessions, place).unwrap().kind,
        ActionKind::PlaceBlock { pos: IVec3::new(1, 2, 3), block: "dirt".to_string() }
    );
    assert!(reader_continues(ReaderEvent::Ignored));
    assert!(reader_continues(ReaderEvent::Routed { delivered: true }));
    assert!(!reader_continues(ReaderEvent::Routed { delivered: false }));
    assert!(!reader_continues(ReaderEvent::EndOfOutput));
    assert!(!reader_continues(ReaderEvent::Failed));
}

#[test]
fn the_ai_command_sends_the_prompt() {
    let words = |s: &[&str]| AiCommand { prompt: s.iter().map(|w| w.to_string()).collect() };
    assert_eq!(
        words(&["build", "a", "house"]).execute(ALICE, Some([0, 1, 2]), true),
        AiOutcome::Enqueue(AiRequest {
            connection: ALICE,
            prompt: "build a house".to_string(),
            pos: Some([0, 1, 2])
        })
    );
    assert_eq!(
        words(&[" ", ""]).execute(ALICE, None, false),
        AiOutcome::Reply("§cUsage: /ai <what you want>")
    );
    assert_eq!(
        words(&["hello"]).execute(ALICE, None, false),
        AiOutcome::Reply("§cThe AI assistant is not available on this server.")
    );
    assert_eq!(AiCommand::acknowledge(true), "§7[AI] thinking…");
    assert_eq!(AiCommand::acknowledge(false), "§cThe AI assistant is busy, try again.");
    assert_eq!(on_player_disconnect(true, Some(BOB)), Some(BridgeMsg::Evict(BOB)));
    assert_eq!(on_player_disconnect(false, Some(BOB)), None);
    assert_eq!(on_player_disconnect(true, None), None);
    assert_eq!(agent_bin(Some("/bin/agent".to_string()), "/home/me"), "/bin/agent");
    assert_eq!(agent_bin(None, "/home/me"), "/home/me/.cargo/target/debug/hyperion-ai-agent");
}

#[test]
fn one_block_is_placed() {
    let mut blocks = world();
    let mut out = Vec::new();
    place_block(&mut blocks, &mut out, ALICE, IVec3::new(1, 64, 2), "stone");
    assert_eq!(blocks.get_block(IVec3::new(1, 64, 2)), Some(STONE));
    assert_eq!(out, vec![update(1, 64, 2, STONE)]);
}

#[test]
fn a_block_that_cannot_be_placed_is_reported() {
    let mut blocks = world();
    let mut out = Vec::new();
    place_block(&mut blocks, &mut out, ALICE, IVec3::new(1, 64, 2), "nonsense");
    place_block(&mut blocks, &mut out, ALICE, IVec3::new(100, 64, 2), "stone");
    place_block(&mut blocks, &mut out, BOB, IVec3::new(1, -100, 2), "stone");
    assert_eq!(
        out,
        vec![
            chat(ALICE, "§c[AI] unknown block: nonsense"),
            chat(ALICE, "§c[AI] couldn't place stone: ChunkNotLoaded"),
            chat(BOB, "§c[AI] couldn't place stone: OutOfBounds"),
        ]
    );
    assert_eq!(blocks.par_scan_for(STONE), vec![]);
}

#[test]
fn a_region_is_filled() {
    let mut blocks = world();
    let mut out = Vec::new();
    fill_region(&mut blocks, &mut out, ALICE, IVec3::new(0, 0, 0), IVec3::new(1, 1, 1), "stone");
    assert_eq!(blocks.par_scan_for(STONE).len(), 8);
    assert_eq!(out.len(), 9);
    assert_eq!(out[0], update(0, 0, 0, STONE));
    assert_eq!(out[1], update(0, 0, 1, STONE));
    assert_eq!(out[2], update(0, 1, 0, STONE));
    assert_eq!(out[4], update(1, 0, 0, STONE));
    assert_eq!(out[8], chat(ALICE, "§7[AI] filled 8 × stone"));
}

#[test]
fn a_fill_skips_what_cannot_be_set() {
    let mut blocks = world();
    let mut out = Vec::new();
    fill_region(&mut blocks, &mut out, BOB, IVec3::new(14, -65, 0), IVec3::new(17, -64, 0), "stone");
    assert_eq!(blocks.par_scan_for(STONE).len(), 2);
    assert_eq!(
        out[2],
        chat(BOB, "§7[AI] filled 2 × stone (6 skipped — out of bounds or unloaded)")
    );
    assert_eq!(out.len(), 3);
}

#[test]
fn a_fill_that_is_too_large_is_refused() {
    let mut blocks = world();
    let mut out = Vec::new();
    fill_region(&mut blocks, &mut out, ALICE, IVec3::new(0, 0, 0), IVec3::new(15, 63, 15), "stone");
    assert_eq!(blocks.par_scan_for(STONE).len(), 16_384);
    out.clear();
    fill_region(&mut blocks, &mut out, ALICE, IVec3::new(0, 0, 0), IVec3::new(15, 64, 15), "dirt");
    assert_eq!(out, vec![chat(ALICE, "§c[AI] region too large (16640 blocks, max 16384)")]);
    out.clear();
    let min = IVec3::new(i32::MIN, i32::MIN, i32::MIN);
    let max = IVec3::new(i32::MAX, i32::MAX, i32::MAX);
    fill_region(&mut blocks, &mut out, ALICE, min, max, "dirt");
    assert_eq!(
        out,
        vec![chat(
            ALICE,
            "§c[AI] region too large (79228162514264337593543950336 blocks, max 16384)"
        )]
    );
    out.clear();
    fill_region(&mut blocks, &mut out, ALICE, min, max, "mud_pie");
    assert_eq!(out, vec![chat(ALICE, "§c[AI] unknown block: mud_pie")]);
    assert_eq!(blocks.par_scan_for(STONE).len(), 16_384);
}

#[test]
fn blocks_beyond_the_named_chunks_are_not_broadcast() {
    let mut blocks = world();
    let mut out = Vec::new();
    place_block(&mut blocks, &mut out, ALICE, IVec3::new(1_048_576, 3, 0), "stone");
    assert_eq!(out, vec![]);
    assert_eq!(blocks.get_block(IVec3::new(0, 3, 0)), Some(STONE));
}

#[test]
fn actions_are_applied_in_order() {
    let mut blocks = world();
    let actions = vec![
        GameAction { connection: ALICE, kind: ActionKind::Say("hello".to_string()) },
        GameAction {
            connection: ALICE,
            kind: ActionKind::PlaceBlock { pos: IVec3::new(0, 0, 0), block: "dirt".to_string() },
        },
        GameAction {
            connection: BOB,
            kind: ActionKind::Fill {
                min: IVec3::new(0, 0, 0),
                max: IVec3::new(0, 0, 0),
                block: "stone".to_string(),
            },
        },
    ];
    let out = drain_ai_actions(&mut blocks, actions);
    assert_eq!(
        out,
        vec![
            chat(ALICE, "§b[AI]§r hello"),
            update(0, 0, 0, BlockState { raw: 10 }),
            update(0, 0, 0, STONE),
            chat(BOB, "§7[AI] filled 1 × stone"),
        ]
    );
    assert_eq!(blocks.get_block(IVec3::new(0, 0, 0)), Some(STONE));
    let mut more = Vec::new();
    apply_action(&mut blocks, &mut more, GameAction { connection: BOB, kind: ActionKind::Say(String::new()) });
    assert_eq!(more, vec![chat(BOB, "§b[AI]§r ")]);
}

#[test]
fn status_lines_reach_the_player() {
    let mut sessions = SessionMap::new();
    assert_eq!(sessions.assign(ALICE), 1);
    let line = InAction { session: 1, kind: AgentAction::Status { text: "Searching".to_string() } };
    let action = route_action(&sessions, line).unwrap();
    assert_eq!(
        action,
        GameAction { connection: ALICE, kind: ActionKind::Status("Searching".to_string()) }
    );
    assert_eq!(drain_ai_actions(&mut world(), vec![action]), vec![chat(ALICE, "§7[AI] Searching")]);
}

#[test]
fn questions_about_the_world_are_answered() {
    let mut sessions = SessionMap::new();
    sessions.assign(ALICE);
    let ask = |kind| route_action(&sessions, InAction { session: 1, kind }).unwrap();
    let get = |request_id, x, y, z| ask(AgentAction::GetBlock { request_id, x, y, z });
    let scan = |request_id, x1, x2| {
        ask(AgentAction::ScanRegion { request_id, x1, y1: 64, z1: 2, x2, y2: 64, z2: 2 })
    };
    let mut blocks = world();
    blocks.set_block(IVec3::new(1, 64, 2), STONE).unwrap();
    blocks.set_block(IVec3::new(3, 64, 2), BlockState { raw: 12818 }).unwrap();
    blocks.set_block(IVec3::new(4, 64, 2), BlockState { raw: 10 }).unwrap();
    let info = |x, block: &str| BlockInfo { x, y: 64, z: 2, block: block.to_string() };
    let found = |request_id, blocks| Outgoing::Answer {
        request_id,
        result: QueryResult { blocks, truncated: false, error: None },
    };
    let refused = |request_id, why: &str| Outgoing::Answer {
        request_id,
        result: QueryResult { blocks: vec![], truncated: false, error: Some(why.to_string()) },
    };
    let asked = vec![
        get(1, 1, 64, 2),
        get(2, 2, 64, 2),
        get(3, 100, 64, 2),
        get(4, 1, 5000, 2),
        scan(5, 20, -5),
        scan(6, 0, 16_384),
        scan(7, 5, 9),
    ];
    assert_eq!(
        drain_ai_actions(&mut blocks, asked),
        vec![
            found(1, vec![info(1, "stone")]),
            found(2, vec![]),
            refused(3, "not loaded"),
            found(4, vec![]),
            found(5, vec![info(1, "stone"), info(4, "dirt")]),
            refused(6, "region too large (16385 blocks, max 16384)"),
            found(7, vec![]),
        ]
    );

    let result = QueryResult { blocks: vec![info(1, "stone")], truncated: false, error: None };
    let answer = BridgeMsg::Answer { request_id: 1, result: result.clone() };
    assert_eq!(
        write_msg(&mut sessions, answer),
        Some(OutMsg::QueryResult { request_id: 1, result: result.clone() })
    );
    assert_eq!(get_block_text(1, 64, 2, Ok(result)), "Block at (1, 64, 2) is `stone`.");
}

#[test]
fn any_course_of_failures_is_given_up() {
    let crash = SupervisorEvent::SessionEnded { restart: true, ran_nanos: 5 };
    let healthy = SupervisorEvent::SessionEnded { restart: true, ran_nanos: 20_000_000_000 };
    let failed = SupervisorEvent::Spawned { ok: false };
    let started = SupervisorEvent::Spawned { ok: true };
    let course = [
        crash, failed, failed, started, crash, failed, failed, failed, failed, started, healthy, started,
        crash, started, crash, started, crash, failed, started, crash, started, crash,
    ];
    let mut supervisor = Supervisor::new();
    let actions: Vec<_> = course.iter().map(|event| supervisor.supervise(*event)).collect();
    assert_eq!(actions.last(), Some(&SupervisorAction::GiveUp));
    assert_eq!(actions.iter().filter(|a| **a == SupervisorAction::GiveUp).count(), 1);
}

#[test]
fn lines_to_the_server_carry_the_session() {
    assert_eq!(
        emit_status(4, "busy".to_string()),
        OutLine { session: 4, kind: Kind::Status { text: "busy".to_string() } }
    );
    assert_eq!(
        emit(5, Kind::Say { text: "hi".to_string() }),
        OutLine { session: 5, kind: Kind::Say { text: "hi".to_string() } }
    );
    let shown = |beat| match announce(6, beat).kind {
        Kind::Status { text } => text,
        _ => unreachable!(),
    };
    assert_eq!(shown(Beat::Searching), "🔍 Searching the web…");
    assert_eq!(shown(Beat::Reading), "📖 Reading a page…");
    assert_eq!(shown(Beat::Looking), "👀 Looking at the area…");
}

#[test]
fn tools_are_described() {
    let names: Vec<&str> = GameTool::all().into_iter().map(|t| t.definition().name).collect();
    assert_eq!(names, vec!["say", "place_block", "fill", "get_block", "scan_region"]);
    let readonly: Vec<bool> = GameTool::all().into_iter().map(|t| t.definition().readonly).collect();
    assert_eq!(readonly, vec![false, false, false, true, true]);
    assert!(GameTool::Fill.definition().description.contains("(block=\"air\")"));
    assert_eq!(
        invalid_args(GameTool::GetBlock, "missing field `x`"),
        "get_block: missing field `x`"
    );
}

#[test]
fn tool_calls_are_summed_up() {
    let (line, text) = call_say(1, "hello".to_string());
    assert_eq!(line.kind, Kind::Say { text: "hello".to_string() });
    assert_eq!(text, "Message delivered to the player.");
    let (line, text) = call_place_block(2, 1, -2, 3, "glass".to_string());
    assert_eq!(
        line,
        OutLine { session: 2, kind: Kind::PlaceBlock { x: 1, y: -2, z: 3, block: "glass".to_string() } }
    );
    assert_eq!(text, "Placed glass at (1, -2, 3).");
    let (line, text) = call_fill(2, 1, 2, 3, -4, 5, 6, "air".to_string());
    assert_eq!(
        line.kind,
        Kind::Fill { x1: 1, y1: 2, z1: 3, x2: -4, y2: 5, z2: 6, block: "air".to_string() }
    );
    assert_eq!(text, "Filling (1,2,3)-(-4,5,6) with air.");
}

fn block(x: i32, name: &str) -> BlockInfo {
    BlockInfo { x, y: 64, z: -1, block: name.to_string() }
}

fn result(blocks: Vec<BlockInfo>, truncated: bool, error: Option<&str>) -> Result<QueryResult, String> {
    Ok(QueryResult { blocks, truncated, error: error.map(str::to_string) })
}

#[test]
fn answers_about_one_block_are_put_into_words() {
    assert_eq!(
        get_block_text(1, 64, -1, result(vec![block(1, "stone")], false, None)),
        "Block at (1, 64, -1) is `stone`."
    );
    assert_eq!(get_block_text(1, 2, 3, result(vec![], false, None)), "Block at (1, 2, 3) is air.");
    assert_eq!(
        get_block_text(1, 2, 3, result(vec![], false, Some("chunk not loaded"))),
        "(1, 2, 3): chunk not loaded"
    );
    assert_eq!(get_block_text(1, 2, 3, Err("too late".to_string())), "too late");
}

#[test]
fn answers_about_a_region_are_put_into_words() {
    assert_eq!(
        scan_region_text(result(vec![block(1, "stone"), block(-2, "dirt")], true, None)),
        "2 non-air block(s):\n(1, 64, -1) stone\n(-2, 64, -1) dirt\n… (truncated; scan a smaller region for the rest)\n"
    );
    assert_eq!(
        scan_region_text(result(vec![block(1, "stone")], false, None)),
        "1 non-air block(s):\n(1, 64, -1) stone\n"
    );
    assert_eq!(scan_region_text(result(vec![], false, None)), "Region is all air (or unloaded).");
    assert_eq!(scan_region_text(result(vec![], false, Some("too big"))), "too big");
    assert_eq!(scan_region_text(Err("gone".to_string())), "gone");
}

#[test]
fn questions_are_answered_once() {
    let mut pending = Pending::new();
    let (first, line) = pending.begin(9, Question::Block { x: 1, y: 2, z: 3 });
    assert_eq!(first, 1);
    assert_eq!(
        line,
        OutLine { session: 9, kind: Kind::GetBlock { request_id: 1, x: 1, y: 2, z: 3 } }
    );
    let (second, line) =
        pending.begin(9, Question::Region { x1: 1, y1: 2, z1: 3, x2: 4, y2: 5, z2: 6 });
    assert_eq!(second, 2);
    assert_eq!(
        line.kind,
        Kind::ScanRegion { request_id: 2, x1: 1, y1: 2, z1: 3, x2: 4, y2: 5, z2: 6 }
    );
    assert!(pending.complete(1));
    assert!(!pending.complete(1));
    assert!(!pending.complete(77));
    assert_eq!(
        run_query(&mut pending, 2, Waited::TimedOut),
        Err("world read timed out (server busy, or persistence disabled?)".to_string())
    );
    assert!(!pending.complete(2));
    assert_eq!(
        run_query(&mut pending, 1, Waited::Closed),
        Err("world read failed (reply channel closed)".to_string())
    );
    let answer = QueryResult { blocks: vec![], truncated: false, error: None };
    assert_eq!(run_query(&mut pending, 1, Waited::Answered(answer.clone())), Ok(answer));
}

fn turn(session: u64, prompt: &str) -> TurnRequest {
    TurnRequest { session, prompt: prompt.to_string(), pos: None }
}

#[test]
fn conversations_continue_until_the_player_leaves() {
    let mut sidecar: Sidecar<Vec<String>> = Sidecar::new();
    let plan = sidecar.begin_turn(turn(7, "hello"));
    assert_eq!(plan.system, Some(SYSTEM_PROMPT));
    assert_eq!(plan.user_prompt, "hello");
    assert_eq!(plan.max_turns, 14);
    let line = sidecar.end_turn(7, Ok((" hi! \n".to_string(), vec!["hello".to_string()])));
    assert_eq!(
        line.unwrap().kind,
        Kind::Say { text: "hi!".to_string() }
    );
    assert_eq!(sidecar.begin_turn(turn(7, "again")).system, None);
    assert_eq!(sidecar.begin_turn(turn(8, "other")).system, Some(SYSTEM_PROMPT));
    let failed = sidecar.end_turn(8, Err("no network".to_string())).unwrap();
    assert_eq!(
        failed.kind,
        Kind::Say {
            text: "§csorry, something went wrong: no network".to_string()
        }
    );
    assert_eq!(sidecar.history(8), None);
    sidecar.begin_turn(turn(9, "hm"));
    assert_eq!(sidecar.end_turn(9, Ok((" ".to_string(), vec![]))), None);
    assert_eq!(sidecar.history(9), Some(&vec![]));
    assert_eq!(sidecar.serve(InMsg::Evict { session: 7 }), Served::Evicted);
    assert_eq!(sidecar.history(7), None);
    assert_eq!(sidecar.history(9), Some(&vec![]));
}

#[test]
fn a_player_who_left_during_a_turn_stays_forgotten() {
    let mut sidecar: Sidecar<u8> = Sidecar::new();
    sidecar.begin_turn(turn(7, "a castle"));
    sidecar.begin_turn(turn(8, "a tower"));
    assert_eq!(sidecar.serve(InMsg::Evict { session: 7 }), Served::Evicted);
    assert!(sidecar.end_turn(7, Ok(("done".to_string(), 1))).is_some());
    assert!(sidecar.end_turn(8, Ok(("done".to_string(), 2))).is_some());
    assert_eq!(sidecar.history(7), None);
    assert_eq!(sidecar.history(8), Some(&2));

    // Two turns of one session at once: the one that ends last is remembered.
    sidecar.begin_turn(turn(8, "higher"));
    sidecar.begin_turn(turn(8, "and wider"));
    sidecar.end_turn(8, Ok(("done".to_string(), 3)));
    sidecar.end_turn(8, Ok(("done".to_string(), 4)));
    assert_eq!(sidecar.history(8), Some(&4));
}

#[test]
fn the_position_is_put_in_front_of_the_prompt() {
    let mut sidecar: Sidecar<u8> = Sidecar::new();
    let req = TurnRequest { session: 1, prompt: "a tower here".to_string(), pos: Some([10, 64, -3]) };
    assert_eq!(
        sidecar.begin_turn(req).user_prompt,
        "[Context: the player is standing at block coordinates x=10, y=64, z=-3. When they say \"here\" or ask you to build, place blocks at or near these coordinates.]\n\na tower here"
    );
}

#[test]
fn lines_from_the_server_are_served() {
    let mut sidecar: Sidecar<u8> = Sidecar::new();
    assert_eq!(sidecar.serve(InMsg::Turn(turn(3, "x"))), Served::Begin(turn(3, "x")));
    let answer = || QueryResult { blocks: vec![], truncated: true, error: None };
    let (id, _) = sidecar.pending.begin(3, Question::Block { x: 0, y: 0, z: 0 });
    assert_eq!(
        sidecar.serve(InMsg::QueryResult { request_id: id, result: answer() }),
        Served::Deliver { request_id: id, result: answer() }
    );
    assert_eq!(
        sidecar.serve(InMsg::QueryResult { request_id: id, result: answer() }),
        Served::Unexpected
    );
}

#[test]
fn a_line_without_a_type_is_a_turn() {
    assert_eq!(message_kind(None), Some(MsgKind::Turn));
    assert_eq!(message_kind(Some("turn")), Some(MsgKind::Turn));
    assert_eq!(message_kind(Some("evict")), Some(MsgKind::Evict));
    assert_eq!(message_kind(Some("query_result")), Some(MsgKind::QueryResult));
    assert_eq!(message_kind(Some("dance")), None);
}

#[test]
fn offline_turns_are_echoed() {
    let line = serve_offline(InMsg::Turn(turn(7, "build a tower"))).unwrap();
    assert_eq!(
        line,
        OutLine {
            session: 7,
            kind: Kind::Say {
                text: "(offline) you said: build a tower".to_string()
            }
        }
    );
    assert_eq!(serve_offline(InMsg::Evict { session: 7 }), None);
}

#[test]
fn a_model_is_chosen() {
    let some = |s: &str| Some(s.to_string());
    assert_eq!(select_model(some("a"), some("b"), some("c")), Ok("a".to_string()));
    assert_eq!(select_model(some("  "), some("b"), some("c")), Ok("b".to_string()));
    assert_eq!(select_model(None, None, some("c")), Ok("c".to_string()));
    assert_eq!(select_model(some(""), None, None), Err(BackendError::NoModel));
    let usual = || "usual".to_string();
    assert_eq!(env_backend(some("k"), None, usual()), Ok(("k".to_string(), "usual".to_string())));
    assert_eq!(env_backend(some("k"), some("m"), usual()), Ok(("k".to_string(), "m".to_string())));
    assert_eq!(env_backend(None, some("m"), usual()), Err(BackendError::NoKey));
    assert_eq!(config_path(None), "/config.toml");
    assert_eq!(config_path(some("/etc/ai.toml")), "/etc/ai.toml");
    assert_eq!(
        BackendError::NoModel.message(),
        "no model selected: set HYPERION_AI_MODEL or default_model in config.toml"
    );
    assert_eq!(
        BackendError::NoKey.message(),
        "no config.toml at HYPERION_AI_CONFIG and ANTHROPIC_API_KEY is not set"
    );
}

#[test]
fn states_are_placed_under_the_players_name_for_them() {
    let mut blocks = world();
    let mut out = Vec::new();
    report_unknown(&mut out, ALICE, "gold", None);
    report_unknown(&mut out, ALICE, "gold", Some(STONE));
    place_state(&mut blocks, &mut out, ALICE, IVec3::new(0, 500, 0), "gold", STONE);
    place_state(&mut blocks, &mut out, ALICE, IVec3::new(0, 50, 0), "gold", STONE);
    fill_with(&mut blocks, &mut out, BOB, IVec3::new(0, 50, 0), IVec3::new(0, 50, 16), "gold", STONE);
    assert_eq!(out[0], chat(ALICE, "§c[AI] unknown block: gold"));
    assert_eq!(out[1], chat(ALICE, "§c[AI] couldn't place gold: OutOfBounds"));
    assert_eq!(out[2], update(0, 50, 0, STONE));
    assert_eq!(out[3], update(0, 50, 0, STONE));
    assert_eq!(out.len(), 20);
    assert_eq!(
        out[19],
        chat(BOB, "§7[AI] filled 16 × gold (1 skipped — out of bounds or unloaded)")
    );
    let mut none = Vec::new();
    fill_with(&mut blocks, &mut none, BOB, IVec3::new(5, 0, 0), IVec3::new(4, 0, 0), "gold", STONE);
    assert_eq!(none, vec![chat(BOB, "§7[AI] filled 0 × gold")]);
}
