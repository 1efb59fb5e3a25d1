//! What the server decides around its ticks: when it saves, how many files it may
//! open, which map it loads, and what it tells the proxy.

use vstd::prelude::*;

use crate::blocks::{Blocks, EntityAndSequence};
use crate::pos::I16Vec2;
use crate::session::ConnectionId;

verus! {

/// How many ticks pass between two saves (thirty seconds).
pub const SAVE_INTERVAL_TICKS: u32 = 600;

/// How many file handles the server would like to have.
pub const RECOMMENDED_FILE_HANDLES: u64 = 32_768;

/// The port that players usually connect to.
pub const DEFAULT_MINECRAFT_PORT: u16 = 25565;

/// Counts the ticks since the last save.
#[derive(Clone, Copy, PartialEq, Eq, Structural, Debug)]
pub struct SaveTimer {
    pub ticks: u32,
}

impl SaveTimer {
    pub open spec fn wf(self) -> bool {
        self.ticks < SAVE_INTERVAL_TICKS
    }

    pub fn new() -> (r: Self)
        ensures
            r.wf(),
            r.ticks == 0,
    {
        SaveTimer { ticks: 0 }
    }

    /// Lets a tick pass; whether it is time to save.
    pub fn persist_world_edits(&mut self) -> (r: bool)
        requires
            old(self).wf(),
        ensures
            final(self).wf(),
            r == (old(self).ticks + 1 == SAVE_INTERVAL_TICKS),
            final(self).ticks == (old(self).ticks + 1) % SAVE_INTERVAL_TICKS as int,
    {
        self.ticks = self.ticks + 1;
        if self.ticks >= SAVE_INTERVAL_TICKS {
            self.ticks = 0;
            true
        } else {
            false
        }
    }
}

/// How many saves come in `n` ticks, from `ticks` ticks after one.
pub open spec fn saves(ticks: int, n: nat) -> nat
    decreases n,
{
    if n == 0 {
        0
    } else {
        (if ticks + 1 == SAVE_INTERVAL_TICKS {
            1nat
        } else {
            0nat
        }) + saves((ticks + 1) % SAVE_INTERVAL_TICKS as int, (n - 1) as nat)
    }
}

/// Every six hundred ticks a save is due, no more and no fewer: no edit waits longer
/// than that until publishing it is tried.
pub proof fn law_saves_are_regular(ticks: int, n: nat)
    requires
        0 <= ticks < SAVE_INTERVAL_TICKS,
    ensures
        saves(ticks, n) == (ticks + n) / SAVE_INTERVAL_TICKS as int,
        saves(ticks, n) == (ticks + n) / 600,
    decreases n,
{
    if n > 0 {
        law_saves_are_regular((ticks + 1) % SAVE_INTERVAL_TICKS as int, (n - 1) as nat);
    }
}

/// Whether there is a save when the server shuts down: where it was told to.
pub fn persist_world_on_exit(exit_events: usize) -> (r: bool)
    ensures
        r == (exit_events > 0),
{
    exit_events > 0
}

/// How many files a process may have open.
#[derive(Clone, Copy, PartialEq, Eq, Structural, Debug)]
pub struct FileLimits {
    pub soft: u64,
    pub hard: u64,
}

/// The limits to ask for: the soft one is raised to the hard one. Beside them,
/// whether even that is less than `recommended_min`.
pub fn adjusted_limits(limits: FileLimits, recommended_min: u64) -> (r: (FileLimits, bool))
    ensures
        r.0 == (FileLimits { soft: limits.hard, hard: limits.hard }),
        r.1 == (limits.hard < recommended_min),
{
    (FileLimits { soft: limits.hard, hard: limits.hard }, limits.hard < recommended_min)
}

/// What to warn about where the server is told to listen on the port that players
/// usually connect to.
pub fn endpoint_warning(port: u16) -> (r: Option<&'static str>)
    ensures
        match r {
            Some(text) => port == DEFAULT_MINECRAFT_PORT && text@
                == "You are setting the port to the default Minecraft port (25565). You are likely using the wrong port as the proxy port is the port that players connect to. Therefore, if you want them to join on 25565, you need to set the PROXY port to 25565 instead."@,
            None => port != DEFAULT_MINECRAFT_PORT,
        },
{
    if port == DEFAULT_MINECRAFT_PORT {
        Some(
            "You are setting the port to the default Minecraft port (25565). You are likely using the wrong port as the proxy port is the port that players connect to. Therefore, if you want them to join on 25565, you need to set the PROXY port to 25565 instead.",
        )
    } else {
        None
    }
}

/// Where the map comes from.
#[derive(Clone, Debug, PartialEq, Eq)]
pub enum MapSource {
    /// A save directory on this machine.
    Local(String),
    /// An archive to download.
    Download(&'static str),
}

/// Where the map comes from: the directory that is set, if one is.
pub fn map_source(dir: Option<String>) -> (r: MapSource)
    ensures
        match dir {
            Some(d) => r == MapSource::Local(d),
            None => r matches MapSource::Download(url) && url@
                == "https://github.com/andrewgazelka/maps/raw/main/GenMap.tar.gz"@,
        },
{
    match dir {
        Some(d) => MapSource::Local(d),
        None => MapSource::Download(
            "https://github.com/andrewgazelka/maps/raw/main/GenMap.tar.gz",
        ),
    }
}

/// Which chunk each player is in, as the proxy is told.
#[derive(Clone, Debug, PartialEq, Eq)]
pub struct UpdatePlayerPositions {
    pub stream: Vec<ConnectionId>,
    pub positions: Vec<I16Vec2>,
}

/// What the proxy is told about where the players are.
pub fn send_chunk_positions(players: &Vec<(ConnectionId, I16Vec2)>) -> (r: UpdatePlayerPositions)
    ensures
        r.stream@ == players@.map_values(|p: (ConnectionId, I16Vec2)| p.0),
        r.positions@ == players@.map_values(|p: (ConnectionId, I16Vec2)| p.1),
{
    let mut stream: Vec<ConnectionId> = Vec::new();
    let mut positions: Vec<I16Vec2> = Vec::new();
    let mut i: usize = 0;
    while i < players.len()
        invariant
            i <= players@.len(),
            stream@ =~= players@.take(i as int).map_values(|p: (ConnectionId, I16Vec2)| p.0),
            positions@ =~= players@.take(i as int).map_values(|p: (ConnectionId, I16Vec2)| p.1),
        decreases players@.len() - i,
    {
        let (io, chunk) = players[i];
        stream.push(io);
        positions.push(chunk);
        i += 1;
    }
    assert(players@.take(players@.len() as int) =~= players@);
    UpdatePlayerPositions { stream, positions }
}

/// Takes the block changes that players still have to be told are done; each is
/// handed out once.
pub fn take_confirmations(blocks: &mut Blocks) -> (r: Vec<EntityAndSequence>)
    requires
        old(blocks).wf(),
    ensures
        final(blocks).wf(),
        r@ == old(blocks).to_confirm@,
        final(blocks).to_confirm@.len() == 0,
        final(blocks).chunk_cache == old(blocks).chunk_cache,
        final(blocks).should_update == old(blocks).should_update,
        final(blocks).edits == old(blocks).edits,
{
    let mut taken: Vec<EntityAndSequence> = Vec::new();
    std::mem::swap(&mut taken, &mut blocks.to_confirm);
    taken
}

/// A buffer for intermediate work.
pub trait ScratchBuffer {
    /// What the buffer holds.
    spec fn held(&self) -> Seq<u8>;

    /// Lends the buffer; what it holds is what was last left in it.
    fn obtain(&mut self) -> (r: &mut [u8])
        ensures
            r@ == old(self).held(),
            final(self).held() == final(r)@,
    ;
}

/// A buffer for intermediate work.
pub struct Scratch {
    pub inner: Vec<u8>,
}

impl Scratch {
    /// A buffer of `size` zeros.
    pub fn new(size: usize) -> (r: Self)
        ensures
            r.held() == Seq::new(size as nat, |i: int| 0u8),
    {
        let mut inner: Vec<u8> = Vec::new();
        let mut i: usize = 0;
        while i < size
            invariant
                i <= size,
                inner@ =~= Seq::new(i as nat, |k: int| 0u8),
            decreases size - i,
        {
            inner.push(0);
            i += 1;
        }
        Scratch { inner }
    }
}

impl ScratchBuffer for Scratch {
    open spec fn held(&self) -> Seq<u8> {
        self.inner@
    }

    fn obtain(&mut self) -> (r: &mut [u8]) {
        self.inner.as_mut_slice()
    }
}

/// What the files that the server keeps for itself are filed under.
#[derive(Clone, Debug, PartialEq, Eq)]
pub struct AppId {
    pub qualifier: String,
    pub organization: String,
    pub application: String,
}

impl AppId {
    /// What they are filed under unless something else is set.
    pub fn generic() -> (r: Self)
        ensures
            r.qualifier@ == "github"@,
            r.organization@ == "hyperion-mc"@,
            r.application@ == "generic"@,
    {
        AppId {
            qualifier: "github".to_owned(),
            organization: "hyperion-mc".to_owned(),
            application: "generic".to_owned(),
        }
    }
}

} // verus!
