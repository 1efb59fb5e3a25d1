//! The lines that the assistant's sidecar reads and writes, and its tools.

use vstd::prelude::*;

use crate::pos::IVec3;
use crate::text::{int_text, push_int, same_text};

verus! {

/// How the assistant is told to behave.
pub const SYSTEM_PROMPT: &'static str =
    "You are an in-game AI assistant on a Minecraft server (the Hyperion engine). A player is talking to you through chat. Keep replies short — one or two sentences — because they appear in the Minecraft chat box.\n\nTools:\n- `say`: speak to the player.\n- `place_block`: place ONE block at integer world coordinates (x, y, z).\n- `fill`: fill a whole cuboid between two corners with one block — use this for walls, floors, towers, boxes, and clearing areas (block=\"air\"). Prefer `fill` over many `place_block` calls.\n- `get_block`: read the block at one coordinate. Returns its name (or that it is air/unloaded).\n- `scan_region`: read a whole cuboid and list its non-air blocks. Use it to SEE the terrain before you build (so you don't build inside a hill or float in the air) and to CHECK your own work after building, then fix mistakes.\n\nIf you are asked to build something whose shape you are unsure of, you may use the web search and web fetch tools first to learn what it typically looks like — its structure, proportions, and materials — then translate that into blocks.\n\nMANDATORY build procedure — follow it EVERY time, even for simple builds:\n1. BEFORE placing any block, you MUST call `scan_region` over the build area to see the ground and surroundings. Never build blind: do NOT call `place_block` or `fill` until you have scanned.\n2. Build relative to what the scan showed — sit the structure on the ground, not inside a hill or floating in the air.\n3. AFTER building, call `scan_region` again on the same area to verify it looks right, and fix any mistakes before you finish.\n\nBlock names look like \"stone\", \"oak_planks\", \"glass\", \"glowstone\". The player's current coordinates are given to you each turn so you can build relative to where they stand (e.g. a few blocks in front of and beside them, not inside them).\n\nYour final response text is also shown to the player automatically. Be helpful and concise.";

pub const SAY_DESCRIPTION: &'static str =
    "Send a chat message to the player who is talking to you. Use this whenever you want to say something to them in-game.";

pub const PLACE_BLOCK_DESCRIPTION: &'static str =
    "Place one block at integer world coordinates (x, y, z). `block` is a block name like \"stone\", \"oak_planks\", \"glass\", or \"glowstone\". Call once per block to build structures.";

pub const FILL_DESCRIPTION: &'static str =
    "Fill the cuboid region between two corners (x1,y1,z1)-(x2,y2,z2), inclusive, with a single block. Use this for walls, floors, towers, boxes, and clearing areas (block=\"air\"). Much better than many place_block calls. The server caps very large regions.";

pub const GET_BLOCK_DESCRIPTION: &'static str =
    "Read the block at integer world coordinates (x, y, z). Returns the block name, or that the position is air or unloaded. Use it to look before you build.";

pub const SCAN_REGION_DESCRIPTION: &'static str =
    "Read the cuboid between two corners (x1,y1,z1)-(x2,y2,z2), inclusive, and list its non-air blocks (air is omitted). Use it to understand the terrain before building and to verify your build afterwards. The server caps very large regions.";

/// One block that was read from the world.
#[derive(Clone, Debug, PartialEq, Eq)]
pub struct BlockInfo {
    pub x: i32,
    pub y: i32,
    pub z: i32,
    pub block: String,
}

/// The server's answer to a question about the world.
#[derive(Clone, Debug, PartialEq, Eq)]
pub struct QueryResult {
    pub blocks: Vec<BlockInfo>,
    pub truncated: bool,
    pub error: Option<String>,
}

/// An answer, as contracts speak of it: the blocks with their names, whether there are
/// more, and what went wrong, if anything.
#[verifier::ext_equal]
pub ghost struct Found {
    pub blocks: Seq<(IVec3, Seq<char>)>,
    pub truncated: bool,
    pub error: Option<Seq<char>>,
}

impl View for QueryResult {
    type V = Found;

    open spec fn view(&self) -> Found {
        Found {
            blocks: self.blocks@.map_values(
                |b: BlockInfo| (IVec3 { x: b.x, y: b.y, z: b.z }, b.block@),
            ),
            truncated: self.truncated,
            error: match self.error {
                Some(why) => Some(why@),
                None => None,
            },
        }
    }
}

/// One player's turn.
#[derive(Clone, Debug, PartialEq, Eq)]
pub struct TurnRequest {
    pub session: u64,
    pub prompt: String,
    /// The block that the player stands in, if known.
    pub pos: Option<[i32; 3]>,
}

/// One line from the server.
#[derive(Clone, Debug, PartialEq, Eq)]
pub enum InMsg {
    Turn(TurnRequest),
    /// The player of a session has left.
    Evict { session: u64 },
    /// The answer to the question with this number.
    QueryResult { request_id: u64, result: QueryResult },
}

/// What a line from the server is about.
#[derive(Clone, Copy, PartialEq, Eq, Structural, Debug)]
pub enum MsgKind {
    Turn,
    Evict,
    QueryResult,
}

/// What a line from the server is about, by its `type`: a line without one is a
/// turn, and one with a type that is not known is about nothing.
pub fn message_kind(tag: Option<&str>) -> (r: Option<MsgKind>)
    ensures
        r == (match tag {
            None => Some(MsgKind::Turn),
            Some(t) => if t@ == "turn"@ {
                Some(MsgKind::Turn)
            } else if t@ == "evict"@ {
                Some(MsgKind::Evict)
            } else if t@ == "query_result"@ {
                Some(MsgKind::QueryResult)
            } else {
                None
            },
        }),
{
    match tag {
        None => Some(MsgKind::Turn),
        Some(t) => if same_text(t, "turn") {
            Some(MsgKind::Turn)
        } else if same_text(t, "evict") {
            Some(MsgKind::Evict)
        } else if same_text(t, "query_result") {
            Some(MsgKind::QueryResult)
        } else {
            None
        },
    }
}

/// What the sidecar asks the server for.
#[derive(Clone, Debug, PartialEq, Eq)]
pub enum ActionKind {
    Say { text: String },
    /// What the assistant is doing right now, in a muted style.
    Status { text: String },
    PlaceBlock { x: i32, y: i32, z: i32, block: String },
    Fill { x1: i32, y1: i32, z1: i32, x2: i32, y2: i32, z2: i32, block: String },
    /// Read one block; the answer comes with the same number.
    GetBlock { request_id: u64, x: i32, y: i32, z: i32 },
    /// Read a cuboid; the answer comes with the same number.
    ScanRegion { request_id: u64, x1: i32, y1: i32, z1: i32, x2: i32, y2: i32, z2: i32 },
}

/// One line to the server.
#[derive(Clone, Debug, PartialEq, Eq)]
pub struct OutLine {
    pub session: u64,
    pub kind: ActionKind,
}

/// The line for one action.
pub fn emit(session: u64, kind: ActionKind) -> (r: OutLine)
    ensures
        r == (OutLine { session, kind }),
{
    OutLine { session, kind }
}

/// The line that tells the player what the assistant is doing right now.
pub fn emit_status(session: u64, text: String) -> (r: OutLine)
    ensures
        r == (OutLine { session, kind: ActionKind::Status { text } }),
{
    emit(session, ActionKind::Status { text })
}

/// The line by which the assistant speaks to the player.
pub(crate) fn emit_say(session: u64, text: String) -> (r: OutLine)
    ensures
        r == (OutLine { session, kind: ActionKind::Say { text } }),
{
    emit(session, ActionKind::Say { text })
}

/// The tools that the assistant acts on the game with.
#[derive(Clone, Copy, PartialEq, Eq, Structural, Debug)]
pub enum GameTool {
    Say,
    PlaceBlock,
    Fill,
    GetBlock,
    ScanRegion,
}

/// What the assistant is told about a tool.
#[derive(Clone, Debug, PartialEq, Eq)]
pub struct ToolDefinition {
    pub name: &'static str,
    pub description: &'static str,
    /// Whether the tool leaves the world as it is.
    pub readonly: bool,
}

impl GameTool {
    /// The name of the tool.
    pub open spec fn title(self) -> Seq<char> {
        match self {
            GameTool::Say => "say"@,
            GameTool::PlaceBlock => "place_block"@,
            GameTool::Fill => "fill"@,
            GameTool::GetBlock => "get_block"@,
            GameTool::ScanRegion => "scan_region"@,
        }
    }

    /// What the assistant is told about the tool.
    pub fn definition(self) -> (r: ToolDefinition)
        ensures
            r.name@ == self.title(),
            r.description@ == (match self {
                GameTool::Say => SAY_DESCRIPTION@,
                GameTool::PlaceBlock => PLACE_BLOCK_DESCRIPTION@,
                GameTool::Fill => FILL_DESCRIPTION@,
                GameTool::GetBlock => GET_BLOCK_DESCRIPTION@,
                GameTool::ScanRegion => SCAN_REGION_DESCRIPTION@,
            }),
            r.readonly == (self == GameTool::GetBlock || self == GameTool::ScanRegion),
    {
        match self {
            GameTool::Say => ToolDefinition {
                name: "say",
                description: SAY_DESCRIPTION,
                readonly: false,
            },
            GameTool::PlaceBlock => ToolDefinition {
                name: "place_block",
                description: PLACE_BLOCK_DESCRIPTION,
                readonly: false,
            },
            GameTool::Fill => ToolDefinition {
                name: "fill",
                description: FILL_DESCRIPTION,
                readonly: false,
            },
            GameTool::GetBlock => ToolDefinition {
                name: "get_block",
                description: GET_BLOCK_DESCRIPTION,
                readonly: true,
            },
            GameTool::ScanRegion => ToolDefinition {
                name: "scan_region",
                description: SCAN_REGION_DESCRIPTION,
                readonly: true,
            },
        }
    }

    /// The tools, in the order that they are offered in.
    pub fn all() -> (r: Vec<GameTool>)
        ensures
            r@ == seq![
                GameTool::Say,
                GameTool::PlaceBlock,
                GameTool::Fill,
                GameTool::GetBlock,
                GameTool::ScanRegion,
            ],
    {
        let r = vec![
            GameTool::Say,
            GameTool::PlaceBlock,
            GameTool::Fill,
            GameTool::GetBlock,
            GameTool::ScanRegion,
        ];
        assert(r@ =~= seq![
            GameTool::Say,
            GameTool::PlaceBlock,
            GameTool::Fill,
            GameTool::GetBlock,
            GameTool::ScanRegion,
        ]);
        r
    }
}

/// What a call with arguments that cannot be read is answered; `why` says what is
/// wrong with them.
pub fn invalid_args(tool: GameTool, why: &str) -> (r: String)
    ensures
        r@ == tool.title() + ": "@ + why@,
{
    let mut text = tool.definition().name.to_owned();
    text.append(": ");
    text.append(why);
    text
}

/// A place in words: `(x, y, z)`.
pub open spec fn place_text(x: i32, y: i32, z: i32) -> Seq<char> {
    "("@ + int_text(x as int) + ", "@ + int_text(y as int) + ", "@ + int_text(z as int) + ")"@
}

/// Writes a place in words.
fn push_place(out: &mut String, x: i32, y: i32, z: i32)
    ensures
        final(out)@ == old(out)@ + place_text(x, y, z),
{
    out.append("(");
    push_int(out, x as i128);
    out.append(", ");
    push_int(out, y as i128);
    out.append(", ");
    push_int(out, z as i128);
    out.append(")");
    assert(out@ =~= old(out)@ + place_text(x, y, z));
}

/// A corner in words: `(x,y,z)`.
pub open spec fn corner_text(x: i32, y: i32, z: i32) -> Seq<char> {
    "("@ + int_text(x as int) + ","@ + int_text(y as int) + ","@ + int_text(z as int) + ")"@
}

/// Writes a corner in words.
fn push_corner(out: &mut String, x: i32, y: i32, z: i32)
    ensures
        final(out)@ == old(out)@ + corner_text(x, y, z),
{
    out.append("(");
    push_int(out, x as i128);
    out.append(",");
    push_int(out, y as i128);
    out.append(",");
    push_int(out, z as i128);
    out.append(")");
    assert(out@ =~= old(out)@ + corner_text(x, y, z));
}

/// What a call of the `say` tool comes to: the line to the server, and what the
/// assistant is told.
pub fn call_say(session: u64, message: String) -> (r: (OutLine, &'static str))
    ensures
        r.0 == (OutLine { session, kind: ActionKind::Say { text: message } }),
        r.1@ == "Message delivered to the player."@,
{
    (emit_say(session, message), "Message delivered to the player.")
}

/// What a call of the `place_block` tool comes to.
pub fn call_place_block(session: u64, x: i32, y: i32, z: i32, block: String) -> (r: (
    OutLine,
    String,
))
    ensures
        r.0 == (OutLine { session, kind: ActionKind::PlaceBlock { x, y, z, block } }),
        r.1@ == "Placed "@ + block@ + " at "@ + place_text(x, y, z) + "."@,
{
    let mut summary = "Placed ".to_owned();
    summary.append(block.as_str());
    summary.append(" at ");
    push_place(&mut summary, x, y, z);
    summary.append(".");
    (emit(session, ActionKind::PlaceBlock { x, y, z, block }), summary)
}

/// What a call of the `fill` tool comes to.
pub fn call_fill(
    session: u64,
    x1: i32,
    y1: i32,
    z1: i32,
    x2: i32,
    y2: i32,
    z2: i32,
    block: String,
) -> (r: (OutLine, String))
    ensures
        r.0 == (OutLine { session, kind: ActionKind::Fill { x1, y1, z1, x2, y2, z2, block } }),
        r.1@ == "Filling "@ + corner_text(x1, y1, z1) + "-"@ + corner_text(x2, y2, z2) + " with "@
            + block@ + "."@,
{
    let mut summary = "Filling ".to_owned();
    push_corner(&mut summary, x1, y1, z1);
    summary.append("-");
    push_corner(&mut summary, x2, y2, z2);
    summary.append(" with ");
    summary.append(block.as_str());
    summary.append(".");
    (emit(session, ActionKind::Fill { x1, y1, z1, x2, y2, z2, block }), summary)
}

/// What the assistant is told about one block that it asked for.
pub open spec fn block_answer(
    x: i32,
    y: i32,
    z: i32,
    answer: Result<QueryResult, String>,
) -> Seq<char> {
    match answer {
        Err(why) => why@,
        Ok(result) => match result.error {
            Some(why) => place_text(x, y, z) + ": "@ + why@,
            None => if result.blocks@.len() > 0 {
                "Block at "@ + place_text(x, y, z) + " is `"@ + result.blocks@[0].block@ + "`."@
            } else {
                "Block at "@ + place_text(x, y, z) + " is air."@
            },
        },
    }
}

/// Tells the assistant about one block that it asked for.
pub fn get_block_text(x: i32, y: i32, z: i32, answer: Result<QueryResult, String>) -> (r: String)
    ensures
        r@ == block_answer(x, y, z, answer),
{
    match answer {
        Err(why) => why,
        Ok(result) => match result.error {
            Some(why) => {
                let mut text = String::new();
                push_place(&mut text, x, y, z);
                text.append(": ");
                text.append(why.as_str());
                assert(text@ =~= place_text(x, y, z) + ": "@ + why@);
                text
            },
            None => {
                let mut text = "Block at ".to_owned();
                push_place(&mut text, x, y, z);
                if result.blocks.len() > 0 {
                    text.append(" is `");
                    text.append(result.blocks[0].block.as_str());
                    text.append("`.");
                } else {
                    text.append(" is air.");
                }
                text
            },
        },
    }
}

/// The first `n` blocks of a list, one on a line.
pub open spec fn block_list(blocks: Seq<BlockInfo>, n: int) -> Seq<char>
    decreases n,
{
    if n <= 0 {
        Seq::empty()
    } else {
        let b = blocks[n - 1];
        block_list(blocks, n - 1) + (place_text(b.x, b.y, b.z) + " "@ + b.block@ + "\n"@)
    }
}

/// What the assistant is told about a region that it asked for.
pub open spec fn region_answer(answer: Result<QueryResult, String>) -> Seq<char> {
    match answer {
        Err(why) => why@,
        Ok(result) => match result.error {
            Some(why) => why@,
            None => if result.blocks@.len() == 0 {
                "Region is all air (or unloaded)."@
            } else {
                int_text(result.blocks@.len() as int) + " non-air block(s):\n"@ + block_list(
                    result.blocks@,
                    result.blocks@.len() as int,
                ) + if result.truncated {
                    "… (truncated; scan a smaller region for the rest)\n"@
                } else {
                    Seq::empty()
                }
            },
        },
    }
}

/// Tells the assistant about a region that it asked for.
pub fn scan_region_text(answer: Result<QueryResult, String>) -> (r: String)
    ensures
        r@ == region_answer(answer),
{
    let result = match answer {
        Err(why) => {
            return why;
        },
        Ok(result) => result,
    };
    if let Some(why) = result.error {
        return why;
    }
    if result.blocks.len() == 0 {
        return "Region is all air (or unloaded).".to_owned();
    }
    let mut text = String::new();
    push_int(&mut text, result.blocks.len() as i128);
    text.append(" non-air block(s):\n");
    let ghost head = int_text(result.blocks@.len() as int) + " non-air block(s):\n"@;
    assert(text@ =~= head);
    let mut i: usize = 0;
    assert(text@ =~= head + block_list(result.blocks@, 0));
    while i < result.blocks.len()
        invariant
            i <= result.blocks@.len(),
            text@ == head + block_list(result.blocks@, i as int),
        decreases result.blocks@.len() - i,
    {
        let b = &result.blocks[i];
        let ghost before = text@;
        push_place(&mut text, b.x, b.y, b.z);
        text.append(" ");
        text.append(b.block.as_str());
        text.append("\n");
        proof {
            let line = place_text(b.x, b.y, b.z) + " "@ + b.block@ + "\n"@;
            assert(text@ =~= before + line);
            assert(text@ =~= head + block_list(result.blocks@, i + 1));
        }
        i += 1;
    }
    if result.truncated {
        text.append("… (truncated; scan a smaller region for the rest)\n");
    }
    assert(text@ =~= region_answer(Ok(result)));
    text
}

/// What the player is shown the moment the assistant uses one of its other tools.
#[derive(Clone, Copy, PartialEq, Eq, Structural, Debug)]
pub enum Beat {
    Searching,
    Reading,
    Looking,
}

/// The line that shows the player what the assistant is doing.
pub fn announce(session: u64, beat: Beat) -> (r: OutLine)
    ensures
        r.session == session,
        r.kind matches ActionKind::Status { text } && text@ == (match beat {
            Beat::Searching => "🔍 Searching the web…"@,
            Beat::Reading => "📖 Reading a page…"@,
            Beat::Looking => "👀 Looking at the area…"@,
        }),
{
    let text = match beat {
        Beat::Searching => "🔍 Searching the web…",
        Beat::Reading => "📖 Reading a page…",
        Beat::Looking => "👀 Looking at the area…",
    };
    emit_status(session, text.to_owned())
}

/// Every block of the answer has its line: the text begins with the heading and the lines
/// of the blocks before it, and then its own follows, place and name.
pub proof fn law_every_block_has_its_line(result: QueryResult, i: int)
    requires
        result.error is None,
        0 <= i < result.blocks@.len(),
    ensures
        ({
            let b = result.blocks@[i];
            let line = "("@ + int_text(b.x as int) + ", "@ + int_text(b.y as int) + ", "@
                + int_text(b.z as int) + ")"@ + " "@ + b.block@ + "\n"@;
            let head = int_text(result.blocks@.len() as int) + " non-air block(s):\n"@;
            head + block_list(result.blocks@, i) + line
        }).is_prefix_of(region_answer(Ok(result))),
{
    let blocks = result.blocks@;
    let b = blocks[i];
    let line = place_text(b.x, b.y, b.z) + " "@ + b.block@ + "\n"@;
    let head = int_text(blocks.len() as int) + " non-air block(s):\n"@;
    lemma_list_begins(blocks, i + 1, blocks.len() as int);
    assert(block_list(blocks, i + 1) == block_list(blocks, i) + line);
    let part = head + block_list(blocks, i) + line;
    let text = region_answer(Ok(result));
    assert(part =~= head + block_list(blocks, i + 1));
    assert(part =~= text.take(part.len() as int));
}

/// The list of the first blocks is how the list of more of them begins.
proof fn lemma_list_begins(blocks: Seq<BlockInfo>, m: int, n: int)
    requires
        m <= n,
    ensures
        block_list(blocks, m).is_prefix_of(block_list(blocks, n)),
        block_list(blocks, m).len() <= block_list(blocks, n).len(),
    decreases n - m,
{
    if m < n {
        lemma_list_begins(blocks, m, n - 1);
        if n > 0 {
            let b = blocks[n - 1];
            let line = place_text(b.x, b.y, b.z) + " "@ + b.block@ + "\n"@;
            let shorter = block_list(blocks, m);
            assert(block_list(blocks, n) == block_list(blocks, n - 1) + line);
            assert(shorter =~= block_list(blocks, n).take(shorter.len() as int));
        }
    }
}

/// One block more makes the list longer by exactly that block's line, and the list of no
/// blocks is empty.
pub proof fn law_one_block_more_is_one_line_more(blocks: Seq<BlockInfo>, b: BlockInfo)
    ensures
        block_list(blocks, 0).len() == 0,
        block_list(blocks.push(b), (blocks.len() + 1) as int) == block_list(
            blocks,
            blocks.len() as int,
        ) + ("("@ + int_text(b.x as int) + ", "@ + int_text(b.y as int) + ", "@ + int_text(
            b.z as int,
        ) + ")"@ + " "@ + b.block@ + "\n"@),
{
    lemma_list_of_prefix(blocks, b, blocks.len() as int);
    assert(blocks.push(b)[blocks.len() as int] == b);
}

/// What stands behind the first `n` blocks does not show in their list.
proof fn lemma_list_of_prefix(blocks: Seq<BlockInfo>, b: BlockInfo, n: int)
    requires
        n <= blocks.len(),
    ensures
        block_list(blocks.push(b), n) == block_list(blocks, n),
    decreases n,
{
    if n > 0 {
        lemma_list_of_prefix(blocks, b, n - 1);
        assert(blocks.push(b)[n - 1] == blocks[n - 1]);
    }
}

/// The answer about a region is how many blocks there are, then the lines of all of them
/// in order, and nothing else but the note that it is cut off, where it is. Without any
/// block the region is all air, and what went wrong is told as it is.
pub proof fn law_region_answer_holds_all_lines(answer: Result<QueryResult, String>)
    ensures
        answer matches Err(why) ==> region_answer(answer) == why@,
        answer matches Ok(result) ==> {
            &&& result.error matches Some(why) ==> region_answer(answer) == why@
            &&& result.error is None && result.blocks@.len() == 0 ==> region_answer(answer)
                == "Region is all air (or unloaded)."@
            &&& result.error is None && result.blocks@.len() > 0 ==> region_answer(answer)
                == int_text(result.blocks@.len() as int) + " non-air block(s):\n"@
                + result.blocks@.map_values(
                |b: BlockInfo|
                    "("@ + int_text(b.x as int) + ", "@ + int_text(b.y as int) + ", "@ + int_text(
                        b.z as int,
                    ) + ")"@ + " "@ + b.block@ + "\n"@,
            ).flatten() + (if result.truncated {
                "… (truncated; scan a smaller region for the rest)\n"@
            } else {
                Seq::empty()
            })
        },
{
    if let Ok(result) = answer {
        let blocks = result.blocks@;
        let line = |b: BlockInfo|
            "("@ + int_text(b.x as int) + ", "@ + int_text(b.y as int) + ", "@ + int_text(
                b.z as int,
            ) + ")"@ + " "@ + b.block@ + "\n"@;
        lemma_list_is_all_lines(blocks, line, blocks.len() as int);
        assert(blocks.take(blocks.len() as int) =~= blocks);
    }
}

proof fn lemma_list_is_all_lines(
    blocks: Seq<BlockInfo>,
    line: spec_fn(BlockInfo) -> Seq<char>,
    n: int,
)
    requires
        0 <= n <= blocks.len(),
        forall|b: BlockInfo| #[trigger]
            line(b) == place_text(b.x, b.y, b.z) + " "@ + b.block@ + "\n"@,
    ensures
        block_list(blocks, n) == blocks.take(n).map_values(line).flatten(),
    decreases n,
{
    let lines = blocks.take(n).map_values(line);
    if n > 0 {
        lemma_list_is_all_lines(blocks, line, n - 1);
        let fewer = blocks.take(n - 1).map_values(line);
        assert(lines =~= fewer.push(line(blocks[n - 1])));
        fewer.lemma_flatten_push(line(blocks[n - 1]));
    } else {
        assert(lines =~= Seq::empty());
    }
}

/// What is told about one block names the place that was asked for, and the block that
/// was found there, or that it is air.
pub proof fn law_block_answer_names_place_and_block(
    x: i32,
    y: i32,
    z: i32,
    answer: Result<QueryResult, String>,
)
    ensures
        ({
            let place = "("@ + int_text(x as int) + ", "@ + int_text(y as int) + ", "@ + int_text(
                z as int,
            ) + ")"@;
            let told = block_answer(x, y, z, answer);
            &&& answer matches Err(why) ==> told == why@
            &&& answer matches Ok(result) ==> {
                &&& result.error matches Some(why) ==> told == place + ": "@ + why@
                &&& result.error is None && result.blocks@.len() == 0 ==> told == "Block at "@
                    + place + " is air."@
                &&& result.error is None && result.blocks@.len() > 0 ==> told == "Block at "@
                    + place + " is `"@ + result.blocks@[0].block@ + "`."@
            }
        }),
{
}

/// An answer is spoken of as it is: block for block with place and name, and with what went
/// wrong.
pub proof fn law_answer_is_spoken_of_as_it_is(result: QueryResult, i: int)
    ensures
        result@.blocks.len() == result.blocks@.len(),
        0 <= i < result.blocks@.len() ==> {
            let b = result.blocks@[i];
            let (pos, name) = result@.blocks[i];
            pos.x == b.x && pos.y == b.y && pos.z == b.z && name == b.block@
        },
        result@.truncated == result.truncated,
        result@.error is Some <==> result.error is Some,
        result.error matches Some(why) ==> result@.error == Some(why@),
{
}

/// No two tools go by the same name.
pub proof fn law_tools_have_their_own_names(a: GameTool, b: GameTool)
    requires
        a.title() == b.title(),
    ensures
        a == b,
{
    reveal_strlit("say");
    reveal_strlit("place_block");
    reveal_strlit("fill");
    reveal_strlit("get_block");
    reveal_strlit("scan_region");
    assert("say"@.len() == 3 && "place_block"@.len() == 11 && "fill"@.len() == 4
        && "get_block"@.len() == 9 && "scan_region"@.len() == 11);
    assert("place_block"@[0] == 'p' && "scan_region"@[0] == 's');
}

} // verus!
