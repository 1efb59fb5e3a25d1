//! Block states and block kinds, by their protocol numbers.
//!
//! The table of blocks itself (which names exist, which kind a state belongs to)
//! comes from `valence_generated`; here a state is its number in that table.

use valence_generated::block::BlockKind;
use vstd::prelude::*;

verus! {

/// The highest block state number of the table.
pub const MAX_STATE: u16 = 24134;

/// How many block kinds the table has.
pub const KIND_COUNT: u16 = 1003;

pub const AIR_STATE: u16 = 0;

pub const VOID_AIR_STATE: u16 = 12817;

pub const CAVE_AIR_STATE: u16 = 12818;

pub const COBBLESTONE_STATE: u16 = 14;

pub const ORANGE_CARPET_STATE: u16 = 10588;

pub const MAGENTA_CARPET_STATE: u16 = 10589;

pub const LIGHT_BLUE_CARPET_STATE: u16 = 10590;

pub const YELLOW_CARPET_STATE: u16 = 10591;

pub const LIME_CARPET_STATE: u16 = 10592;

pub const PINK_CARPET_STATE: u16 = 10593;

pub const CYAN_CARPET_STATE: u16 = 10596;

pub const PURPLE_CARPET_STATE: u16 = 10597;

pub const RED_CARPET_STATE: u16 = 10601;

pub const AIR_KIND: u16 = 0;

pub const STONE_KIND: u16 = 1;

pub const GRASS_BLOCK_KIND: u16 = 8;

pub const DIRT_KIND: u16 = 9;

pub const COBBLESTONE_KIND: u16 = 12;

pub const BEDROCK_KIND: u16 = 31;

pub const WATER_KIND: u16 = 32;

pub const LAVA_KIND: u16 = 33;

pub const SAND_KIND: u16 = 34;

pub const GRAVEL_KIND: u16 = 37;

pub const VOID_AIR_KIND: u16 = 729;

pub const CAVE_AIR_KIND: u16 = 730;

/// A block in one of its states.
#[derive(Clone, Copy, PartialEq, Eq, Structural, Debug, Hash)]
pub struct BlockState {
    pub raw: u16,
}

impl BlockState {
    /// Whether the table has a state with this number.
    pub open spec fn valid(self) -> bool {
        self.raw <= MAX_STATE
    }

    /// The state with the number `raw`, if the table has one.
    pub fn from_raw(raw: u16) -> (r: Option<Self>)
        ensures
            r == (if raw <= MAX_STATE {
                Some(BlockState { raw })
            } else {
                None
            }),
    {
        match table_state(raw) {
            Some(raw) => Some(BlockState { raw }),
            None => None,
        }
    }

    /// The number of this state.
    pub fn to_raw(self) -> (r: u16)
        ensures
            r == self.raw,
    {
        self.raw
    }

    pub fn air() -> (r: Self)
        ensures
            r == (BlockState { raw: AIR_STATE }),
    {
        BlockState { raw: AIR_STATE }
    }

    pub fn void_air() -> (r: Self)
        ensures
            r == (BlockState { raw: VOID_AIR_STATE }),
    {
        BlockState { raw: VOID_AIR_STATE }
    }

    pub fn cobblestone() -> (r: Self)
        ensures
            r == (BlockState { raw: COBBLESTONE_STATE }),
    {
        BlockState { raw: COBBLESTONE_STATE }
    }
}

/// The number of the block kind that is named `name`, if there is one.
pub uninterp spec fn kind_named(name: Seq<char>) -> Option<u16>;

/// The number of the default state of the block kind `kind`.
pub uninterp spec fn default_state(kind: u16) -> u16;

/// The number of the block kind that the state `raw` belongs to.
pub uninterp spec fn kind_of_state(raw: u16) -> u16;

/// The name of the block kind `kind`.
pub uninterp spec fn kind_name(kind: u16) -> Seq<char>;

/// The kinds that make up the terrain: air, bedrock, soil, stone and liquids.
pub open spec fn is_terrain_kind(kind: u16) -> bool {
    ||| kind == AIR_KIND
    ||| kind == CAVE_AIR_KIND
    ||| kind == VOID_AIR_KIND
    ||| kind == BEDROCK_KIND
    ||| kind == GRASS_BLOCK_KIND
    ||| kind == DIRT_KIND
    ||| kind == WATER_KIND
    ||| kind == LAVA_KIND
    ||| kind == SAND_KIND
    ||| kind == GRAVEL_KIND
    ||| kind == STONE_KIND
}

/// The states of the terrain kinds: air 0, stone 1, grass blocks 8 and 9, dirt
/// 10, bedrock 79, water 80 to 95, lava 96 to 111, sand 112, gravel 118, void
/// air 12817 and cave air 12818.
pub open spec fn is_terrain_state(raw: u16) -> bool {
    ||| raw <= 1
    ||| 8 <= raw <= 10
    ||| 79 <= raw <= 112
    ||| raw == 118
    ||| raw == 12817
    ||| raw == 12818
}

/// `BlockState::from_raw` of `valence_generated`, read back with `to_raw`: the
/// state exists exactly up to the highest number of the table, and its number is
/// the one it was made from.
#[verifier::external_body]
fn table_state(raw: u16) -> (r: Option<u16>)
    ensures
        r == (if raw <= MAX_STATE {
            Some(raw)
        } else {
            None
        }),
{
    valence_generated::block::BlockState::from_raw(raw).map(|state| state.to_raw())
}

/// `BlockKind::from_str` of `valence_generated`: looks a snake_case name up in
/// the table. Which names it knows is the table's business; a kind it finds has
/// a number below [`KIND_COUNT`].
#[verifier::external_body]
fn table_kind_named(name: &str) -> (r: Option<u16>)
    ensures
        r == kind_named(name@),
        r matches Some(kind) ==> kind < KIND_COUNT,
{
    BlockKind::from_str(name).map(|kind| kind.to_raw())
}

/// `BlockState::from_kind` of `valence_generated`: the default state of a kind
/// is a state of the table.
#[verifier::external_body]
fn table_default_state(kind: u16) -> (r: Option<u16>)
    ensures
        kind >= KIND_COUNT ==> r is None,
        kind < KIND_COUNT ==> r == Some(default_state(kind)),
        r matches Some(raw) ==> raw <= MAX_STATE,
{
    BlockKind::from_raw(kind).map(|kind| {
        valence_generated::block::BlockState::from_kind(kind).to_raw()
    })
}

/// `BlockState::to_kind` of `valence_generated`: every state of the table has a
/// kind, with a number below [`KIND_COUNT`], and the states of the terrain kinds are those that
/// [`is_terrain_state`] lists.
#[verifier::external_body]
fn table_kind_of_state(raw: u16) -> (r: Option<u16>)
    ensures
        raw > MAX_STATE ==> r is None,
        raw <= MAX_STATE ==> r == Some(kind_of_state(raw)),
        r matches Some(kind) ==> kind < KIND_COUNT && is_terrain_kind(kind) == is_terrain_state(
            raw,
        ),
{
    valence_generated::block::BlockState::from_raw(raw).map(|state| state.to_kind().to_raw())
}

/// `BlockKind::to_str` of `valence_generated`: the snake_case name of a kind, under
/// which `BlockKind::from_str` finds it again.
#[verifier::external_body]
fn table_kind_name(kind: u16) -> (r: Option<&'static str>)
    ensures
        kind >= KIND_COUNT ==> r is None,
        kind < KIND_COUNT ==> r is Some,
        r matches Some(name) ==> name@ == kind_name(kind) && kind_named(name@) == Some(kind),
{
    BlockKind::from_raw(kind).map(|kind| kind.to_str())
}

/// The states of air: that of open space, of the void outside the columns, and of
/// caves.
pub open spec fn is_air(state: BlockState) -> bool {
    state.raw == AIR_STATE || state.raw == VOID_AIR_STATE || state.raw == CAVE_AIR_STATE
}

/// The name of the block that is in this state.
pub open spec fn name_of(state: BlockState) -> Seq<char> {
    kind_name(kind_of_state(state.raw))
}

/// The name of the block that is in this state. Under this name it can be placed.
pub fn block_name(state: BlockState) -> (r: &'static str)
    requires
        state.valid(),
    ensures
        r@ == name_of(state),
        state_named(r@) == Some(BlockState { raw: default_state(kind_of_state(state.raw)) }),
{
    match table_kind_of_state(state.raw) {
        Some(kind) => match table_kind_name(kind) {
            Some(name) => name,
            None => "",
        },
        None => "",
    }
}

/// The state that placing the block named `name` puts into the world.
pub open spec fn state_named(name: Seq<char>) -> Option<BlockState> {
    match kind_named(name) {
        Some(kind) => Some(BlockState { raw: default_state(kind) }),
        None => None,
    }
}

/// The default state of the block kind named `name`, if there is such a kind.
pub fn block_named(name: &str) -> (r: Option<BlockState>)
    ensures
        r == state_named(name@),
        r matches Some(state) ==> state.valid(),
{
    match table_kind_named(name) {
        Some(kind) => match table_default_state(kind) {
            Some(raw) => Some(BlockState { raw }),
            None => None,
        },
        None => None,
    }
}

/// Blocks that weather may destroy: built materials and trees, never the terrain
/// itself.
pub open spec fn structural(state: BlockState) -> bool {
    state.valid() && !is_terrain_state(state.raw)
}

/// Whether weather may destroy a block in this state.
pub fn is_structural(state: BlockState) -> (r: bool)
    ensures
        r == structural(state),
{
    match table_kind_of_state(state.raw) {
        Some(kind) => is_structural_kind(kind),
        None => false,
    }
}

/// Whether weather may destroy blocks of this kind.
pub fn is_structural_kind(kind: u16) -> (r: bool)
    ensures
        r == !is_terrain_kind(kind),
{
    !(kind == AIR_KIND || kind == CAVE_AIR_KIND || kind == VOID_AIR_KIND || kind == BEDROCK_KIND
        || kind == GRASS_BLOCK_KIND || kind == DIRT_KIND || kind == WATER_KIND || kind == LAVA_KIND
        || kind == SAND_KIND || kind == GRAVEL_KIND || kind == STONE_KIND)
}

/// What weather spares is air in its three forms, bedrock, grass blocks, dirt, stone, sand,
/// gravel, and water and lava at every level; it may destroy every other state that exists.
pub proof fn law_weather_spares_just_the_terrain(state: BlockState, kind: u16)
    ensures
        structural(state) <==> state.raw <= MAX_STATE && !(80 <= state.raw <= 111) && !seq![
            0u16,
            1,
            8,
            9,
            10,
            79,
            112,
            118,
            12817,
            12818,
        ].contains(state.raw),
        is_terrain_kind(kind) <==> seq![
            AIR_KIND,
            CAVE_AIR_KIND,
            VOID_AIR_KIND,
            BEDROCK_KIND,
            GRASS_BLOCK_KIND,
            DIRT_KIND,
            WATER_KIND,
            LAVA_KIND,
            SAND_KIND,
            GRAVEL_KIND,
            STONE_KIND,
        ].contains(kind),
        is_air(state) ==> !structural(state),
{
    let raws = seq![0u16, 1, 8, 9, 10, 79, 112, 118, 12817, 12818];
    assert(raws[0] == 0 && raws[1] == 1 && raws[2] == 8 && raws[3] == 9 && raws[4] == 10 && raws[5]
        == 79 && raws[6] == 112 && raws[7] == 118 && raws[8] == 12817 && raws[9] == 12818);
    let kinds = seq![
        AIR_KIND,
        CAVE_AIR_KIND,
        VOID_AIR_KIND,
        BEDROCK_KIND,
        GRASS_BLOCK_KIND,
        DIRT_KIND,
        WATER_KIND,
        LAVA_KIND,
        SAND_KIND,
        GRAVEL_KIND,
        STONE_KIND,
    ];
    assert(kinds[0] == AIR_KIND && kinds[1] == CAVE_AIR_KIND && kinds[2] == VOID_AIR_KIND
        && kinds[3] == BEDROCK_KIND && kinds[4] == GRASS_BLOCK_KIND && kinds[5] == DIRT_KIND
        && kinds[6] == WATER_KIND && kinds[7] == LAVA_KIND && kinds[8] == SAND_KIND && kinds[9]
        == GRAVEL_KIND && kinds[10] == STONE_KIND);
}

/// A name stands for the default state of its kind, whichever kind that is, and for nothing
/// where no kind has it.
pub proof fn law_name_stands_for_its_kind(name: Seq<char>)
    ensures
        kind_named(name) is None <==> state_named(name) is None,
        kind_named(name) matches Some(kind) ==> state_named(name) == Some(
            BlockState { raw: default_state(kind) },
        ),
{
}

} // verus!
