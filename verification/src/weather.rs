//! Extreme weather: a storm or an earthquake that shows on every player's screen,
//! strikes lightning, blows players around, and damages buildings.
//!
//! Damage can be transient, so that the world heals when the server restarts, or
//! permanent. Where players stand, how they are pushed, and when a tick comes is
//! the caller's business.

use vstd::prelude::*;

use crate::actions::{broadcast_block, sent, update_of, Outgoing, Sent};
use crate::block::{is_structural, structural, BlockState, AIR_STATE};
use crate::blocks::{block_at, kept_edits, set_block_outcome, Blocks};
use crate::chance::{random_index, random_u8};
use crate::chunk::Column;
use crate::paint::same_block;
use crate::pos::IVec3;
use crate::replay::law_read_after_set;
use crate::text::{
    int_text, law_repeated_is_the_piece_again, push_int, push_repeated, repeated,
};

verus! {

#[derive(Clone, Copy, PartialEq, Eq, Structural, Debug)]
pub enum WeatherKind {
    Calm,
    Storm,
    Quake,
}

/// How many ticks a bolt of lightning lasts.
pub const LIGHTNING_TTL: u32 = 10;

/// The weather of the whole server.
#[derive(Clone, Copy, PartialEq, Eq, Structural, Debug)]
pub struct Weather {
    pub kind: WeatherKind,
    /// From 0 to 12, as on the Beaufort scale.
    pub intensity: u8,
    /// How many ticks are left of the event; none when it is calm.
    pub ticks_left: u32,
    /// Whether damage is kept when the server restarts.
    pub persist_damage: bool,
    /// Whether the weather follows that of the real world.
    pub auto_follow: bool,
    /// How many ticks until the next effects.
    pub next_pulse: u32,
}

impl Default for Weather {
    fn default() -> (r: Self)
        ensures
            r == (Weather {
                kind: WeatherKind::Calm,
                intensity: 0,
                ticks_left: 0,
                persist_damage: false,
                auto_follow: true,
                next_pulse: 0,
            }),
            r.wf(),
    {
        Weather {
            kind: WeatherKind::Calm,
            intensity: 0,
            ticks_left: 0,
            persist_damage: false,
            auto_follow: true,
            next_pulse: 0,
        }
    }
}

/// `v` brought into the range from 1 to 12.
pub open spec fn clamp_level(v: u8) -> u8 {
    if v < 1 {
        1
    } else if v > 12 {
        12
    } else {
        v
    }
}

/// Brings `v` into the range from 1 to 12.
pub(crate) fn clamped(v: u8) -> (r: u8)
    ensures
        r == clamp_level(v),
{
    if v < 1 {
        1
    } else if v > 12 {
        12
    } else {
        v
    }
}

impl Weather {
    pub open spec fn wf(self) -> bool {
        self.intensity <= 12
    }

    /// This weather once an event of `kind` was started.
    pub open spec fn started(self, kind: WeatherKind, intensity: u8, seconds: u32) -> Weather {
        Weather {
            kind,
            intensity: clamp_level(intensity),
            ticks_left: (seconds * 20) as u32,
            next_pulse: 0,
            ..self
        }
    }

    /// This weather once the event was stopped.
    pub open spec fn calmed(self) -> Weather {
        Weather { kind: WeatherKind::Calm, intensity: 0, ticks_left: 0, ..self }
    }

    /// Starts an event of `kind` at `intensity` (1 to 12) for `seconds`.
    pub fn start(&mut self, kind: WeatherKind, intensity: u8, seconds: u32)
        requires
            seconds * 20 <= u32::MAX,
        ensures
            *final(self) == old(self).started(kind, intensity, seconds),
            final(self).wf(),
    {
        self.kind = kind;
        self.intensity = clamped(intensity);
        self.ticks_left = seconds * 20;
        self.next_pulse = 0;
    }

    /// Stops the event.
    pub fn calm(&mut self)
        ensures
            *final(self) == old(self).calmed(),
            final(self).wf(),
    {
        self.kind = WeatherKind::Calm;
        self.intensity = 0;
        self.ticks_left = 0;
    }
}

/// The effects of one pulse.
#[derive(Clone, Copy, PartialEq, Eq, Structural, Debug)]
pub struct Pulse {
    pub kind: WeatherKind,
    pub intensity: u8,
    /// How many columns of blocks are hit around each player.
    pub hits: u32,
    /// Whether the damage is kept.
    pub persist: bool,
}

/// What happens in one tick.
#[derive(Clone, Debug, PartialEq, Eq)]
pub struct WeatherTick {
    /// The line to show on every player's screen, if any.
    pub hud: Option<String>,
    /// The effects to apply, if any.
    pub pulse: Option<Pulse>,
}

/// How many ticks there are from one pulse to the next: fewer at higher intensity,
/// but no fewer than five.
pub open spec fn pulse_gap(intensity: u8) -> int {
    let gap = 40 - intensity * 3;
    if gap > 5 {
        gap
    } else {
        5
    }
}

/// The weather after one tick.
pub open spec fn ticked(w: Weather) -> Weather {
    if w.kind == WeatherKind::Calm {
        w
    } else if w.ticks_left == 0 {
        w.calmed()
    } else {
        Weather {
            ticks_left: (w.ticks_left - 1) as u32,
            next_pulse: if w.next_pulse > 0 {
                (w.next_pulse - 1) as u32
            } else {
                (pulse_gap(w.intensity) - 1) as u32
            },
            ..w
        }
    }
}

/// What the screens show in the tick that `w` comes before. The readout of an
/// event is refreshed twice a second.
pub open spec fn hud_shown(w: Weather) -> Option<Seq<char>> {
    if w.kind == WeatherKind::Calm {
        None
    } else if w.ticks_left == 0 {
        Some("§aThe weather has calmed."@)
    } else if (w.ticks_left - 1) % 10 == 0 {
        Some(hud_text(w.kind, w.intensity, (w.ticks_left - 1) / 20))
    } else {
        None
    }
}

/// The readout of an event: what it is, how strong, as a number and as a bar of
/// twelve, and how many seconds are left.
pub open spec fn hud_text(kind: WeatherKind, intensity: u8, secs: int) -> Seq<char> {
    let color = match kind {
        WeatherKind::Storm => "§c"@,
        WeatherKind::Quake => "§6"@,
        WeatherKind::Calm => "§a"@,
    };
    let icon = match kind {
        WeatherKind::Storm => "⚡"@,
        WeatherKind::Quake => "§6☶§r"@,
        WeatherKind::Calm => ""@,
    };
    let name = match kind {
        WeatherKind::Storm => "Storm"@,
        WeatherKind::Quake => "Quake"@,
        WeatherKind::Calm => ""@,
    };
    color + icon + " "@ + name + " Lv"@ + int_text(intensity as int) + " §8["@ + repeated(
        "▰"@,
        intensity as nat,
    ) + repeated("▱"@, (12 - intensity) as nat) + color + "§8] §7"@ + int_text(secs) + "s"@
}

/// The effects in the tick that `w` comes before: some in the ticks of an event
/// that the countdown has run out in.
pub open spec fn pulse_due(w: Weather) -> Option<Pulse> {
    if w.kind == WeatherKind::Calm || w.ticks_left == 0 || w.next_pulse > 0 {
        None
    } else {
        Some(
            Pulse {
                kind: w.kind,
                intensity: w.intensity,
                hits: (1 + w.intensity as int / 2) as u32,
                persist: w.persist_damage,
            },
        )
    }
}

/// Writes the readout of an event.
fn hud_line(kind: WeatherKind, intensity: u8, secs: u32) -> (r: String)
    requires
        intensity <= 12,
    ensures
        r@ == hud_text(kind, intensity, secs as int),
{
    let (icon, name, color) = match kind {
        WeatherKind::Storm => ("⚡", "Storm", "§c"),
        WeatherKind::Quake => ("§6☶§r", "Quake", "§6"),
        WeatherKind::Calm => ("", "", "§a"),
    };
    let mut text = color.to_owned();
    text.append(icon);
    text.append(" ");
    text.append(name);
    text.append(" Lv");
    push_int(&mut text, intensity as i128);
    text.append(" §8[");
    push_repeated(&mut text, "▰", intensity as usize);
    push_repeated(&mut text, "▱", (12 - intensity) as usize);
    text.append(color);
    text.append("§8] §7");
    push_int(&mut text, secs as i128);
    text.append("s");
    text
}

/// Lets one tick pass.
pub fn weather_tick(weather: &mut Weather) -> (r: WeatherTick)
    requires
        old(weather).wf(),
    ensures
        final(weather).wf(),
        *final(weather) == ticked(*old(weather)),
        match (r.hud, hud_shown(*old(weather))) {
            (Some(text), Some(shown)) => text@ == shown,
            (None, None) => true,
            _ => false,
        },
        r.pulse == pulse_due(*old(weather)),
{
    if weather.kind == WeatherKind::Calm {
        return WeatherTick { hud: None, pulse: None };
    }
    if weather.ticks_left == 0 {
        weather.calm();
        return WeatherTick { hud: Some("§aThe weather has calmed.".to_owned()), pulse: None };
    }
    weather.ticks_left = weather.ticks_left - 1;
    let hud = if weather.ticks_left % 10 == 0 {
        Some(hud_line(weather.kind, weather.intensity, weather.ticks_left / 20))
    } else {
        None
    };
    if weather.next_pulse > 0 {
        weather.next_pulse = weather.next_pulse - 1;
        return WeatherTick { hud, pulse: None };
    }
    let gap: u32 = 40 - weather.intensity as u32 * 3;
    // This tick is the first of the gap.
    weather.next_pulse = if gap > 5 {
        gap - 1
    } else {
        4
    };
    WeatherTick {
        hud,
        pulse: Some(
            Pulse {
                kind: weather.kind,
                intensity: weather.intensity,
                hits: 1 + weather.intensity as u32 / 2,
                persist: weather.persist_damage,
            },
        ),
    }
}

/// Whether a storm strikes lightning, for a roll from 0 to 59: the stronger it is,
/// the likelier.
pub fn lightning_strikes(pulse: Pulse, roll: u8) -> (r: bool)
    ensures
        r == (pulse.kind == WeatherKind::Storm && roll < pulse.intensity),
{
    pulse.kind == WeatherKind::Storm && roll < pulse.intensity
}

/// Which of `players` players lightning strikes near, for a roll from 0 to 59: number
/// `index`, if it strikes at all.
pub open spec fn lightning_player(
    pulse: Pulse,
    players: usize,
    roll: u8,
    index: usize,
) -> Option<usize> {
    if players > 0 && pulse.kind == WeatherKind::Storm && roll < pulse.intensity {
        Some(index)
    } else {
        None
    }
}

/// Which of `players` players lightning strikes near, for a roll from 0 to 59: number
/// `index`, if it strikes at all.
pub fn lightning_at(pulse: Pulse, players: usize, roll: u8, index: usize) -> (r: Option<usize>)
    ensures
        r == lightning_player(pulse, players, roll, index),
{
    if players > 0 && lightning_strikes(pulse, roll) {
        Some(index)
    } else {
        None
    }
}

/// Which of `players` players lightning strikes near, if it strikes at all: the roll
/// and the player are left to chance.
pub fn lightning_target(pulse: Pulse, players: usize) -> (r: Option<usize>)
    ensures
        players == 0 ==> r is None,
        players > 0 ==> exists|roll: u8, index: usize|
            roll < 60 && index < players && r == #[trigger] lightning_player(
                pulse,
                players,
                roll,
                index,
            ),
{
    if players == 0 {
        return None;
    }
    let roll: u8 = random_u8(60);
    let index: usize = random_index(players);
    lightning_at(pulse, players, roll, index)
}

/// What is left of a bolt of lightning after one tick: `None` where it is over.
pub fn cleanup_bolt(ttl: u32) -> (r: Option<u32>)
    ensures
        r == (if ttl == 0 {
            None
        } else {
            Some((ttl - 1) as u32)
        }),
{
    if ttl == 0 {
        None
    } else {
        Some(ttl - 1)
    }
}

/// Whether the block at `pos` is loaded and may be destroyed.
pub open spec fn vulnerable(entries: Seq<((i16, i16), Column)>, pos: IVec3) -> bool {
    block_at(entries, pos) matches Some(state) && structural(state)
}

/// The heights that a kind of weather reaches: an earthquake gnaws at the
/// foundations, a storm chews from the top down.
pub open spec fn reach(kind: WeatherKind) -> (int, int) {
    if kind == WeatherKind::Quake {
        (66, 60)
    } else {
        (90, 65)
    }
}

/// The highest block from `hi` down to `lo` at `x`, `z` that may be destroyed.
pub open spec fn topmost(
    entries: Seq<((i16, i16), Column)>,
    x: i32,
    z: i32,
    hi: int,
    lo: int,
) -> Option<IVec3>
    decreases hi - lo + 1,
{
    if hi < lo {
        None
    } else if vulnerable(entries, IVec3 { x, y: hi as i32, z }) {
        Some(IVec3 { x, y: hi as i32, z })
    } else {
        topmost(entries, x, z, hi - 1, lo)
    }
}

/// What one hit on the column at `target` comes to: the topmost block in reach
/// that may be destroyed is, and the players near it are told.
pub open spec fn struck(
    before: Blocks,
    after: Blocks,
    sent_before: Seq<Sent>,
    sent_after: Seq<Sent>,
    kind: WeatherKind,
    persist: bool,
    target: (i32, i32),
) -> bool {
    match topmost(before.columns(), target.0, target.1, reach(kind).0, reach(kind).1) {
        None => after == before && sent_after == sent_before,
        Some(pos) => set_block_outcome(before, after, pos, BlockState { raw: AIR_STATE }, persist)
            && sent_after == sent_before + update_of(pos, BlockState { raw: AIR_STATE }),
    }
}

/// Hits the column at `x`, `z` once.
pub fn strike_column(
    blocks: &mut Blocks,
    out: &mut Vec<Outgoing>,
    kind: WeatherKind,
    persist: bool,
    x: i32,
    z: i32,
)
    requires
        old(blocks).wf(),
    ensures
        final(blocks).wf(),
        struck(
            *old(blocks),
            *final(blocks),
            sent(old(out)@),
            sent(final(out)@),
            kind,
            persist,
            (x, z),
        ),
{
    let y_hi: i32 = if kind == WeatherKind::Quake {
        66
    } else {
        90
    };
    let y_lo: i32 = if kind == WeatherKind::Quake {
        60
    } else {
        65
    };
    let mut y: i32 = y_hi;
    while y >= y_lo
        invariant
            blocks.wf(),
            *blocks == *old(blocks),
            *out == *old(out),
            60 <= y_lo <= y_hi <= 90,
            y_lo - 1 <= y <= y_hi,
            reach(kind) == (y_hi as int, y_lo as int),
            topmost(blocks.columns(), x, z, reach(kind).0, reach(kind).1) == topmost(
                blocks.columns(),
                x,
                z,
                y as int,
                y_lo as int,
            ),
        decreases y - y_lo + 1,
    {
        let pos = IVec3::new(x, y, z);
        let hit = match blocks.get_block(pos) {
            Some(state) => is_structural(state),
            None => false,
        };
        if hit {
            let air = BlockState::air();
            proof {
                let entries = blocks.columns();
                assert(vulnerable(entries, IVec3 { x, y: y as int as i32, z }));
                assert(topmost(entries, x, z, reach(kind).0, reach(kind).1) == Some(pos));
            }
            let r = if persist {
                blocks.set_block(pos, air)
            } else {
                blocks.set_block_transient(pos, air)
            };
            match r {
                Ok(_) => {
                    broadcast_block(out, pos, air);
                },
                Err(_) => {},
            }
            return;
        }
        y -= 1;
    }
}

/// What many hits come to, one after the other.
pub open spec fn all_struck(
    before: Blocks,
    after: Blocks,
    sent_before: Seq<Sent>,
    sent_after: Seq<Sent>,
    kind: WeatherKind,
    persist: bool,
    targets: Seq<(i32, i32)>,
) -> bool
    decreases targets.len(),
{
    if targets.len() == 0 {
        after == before && sent_after == sent_before
    } else {
        exists|mid: Blocks, sent_mid: Seq<Sent>|
            #![trigger struck(mid, after, sent_mid, sent_after, kind, persist, targets.last())]
            mid.wf() && all_struck(
                before,
                mid,
                sent_before,
                sent_mid,
                kind,
                persist,
                targets.drop_last(),
            ) && struck(mid, after, sent_mid, sent_after, kind, persist, targets.last())
    }
}

/// Damages the buildings of the world: hits each of the columns `targets` once.
pub fn damage(blocks: &mut Blocks, pulse: Pulse, targets: &Vec<(i32, i32)>) -> (r: Vec<Outgoing>)
    requires
        old(blocks).wf(),
    ensures
        final(blocks).wf(),
        all_struck(
            *old(blocks),
            *final(blocks),
            Seq::empty(),
            sent(r@),
            pulse.kind,
            pulse.persist,
            targets@,
        ),
{
    let mut out: Vec<Outgoing> = Vec::new();
    let ghost before = *blocks;
    let mut i: usize = 0;
    proof {
        assert(targets@.take(0) =~= Seq::empty());
        assert(sent(out@) =~= Seq::empty());
    }
    while i < targets.len()
        invariant
            i <= targets@.len(),
            blocks.wf(),
            all_struck(
                before,
                *blocks,
                Seq::empty(),
                sent(out@),
                pulse.kind,
                pulse.persist,
                targets@.take(i as int),
            ),
        decreases targets@.len() - i,
    {
        let (x, z) = targets[i];
        let ghost mid = *blocks;
        let ghost sent_mid = sent(out@);
        strike_column(blocks, &mut out, pulse.kind, pulse.persist, x, z);
        proof {
            let more = targets@.take(i + 1);
            assert(more.drop_last() =~= targets@.take(i as int));
            assert(more.last() == (x, z));
            assert(struck(
                mid,
                *blocks,
                sent_mid,
                sent(out@),
                pulse.kind,
                pulse.persist,
                more.last(),
            ));
        }
        i += 1;
    }
    assert(targets@.take(targets@.len() as int) =~= targets@);
    out
}

proof fn lemma_topmost(entries: Seq<((i16, i16), Column)>, x: i32, z: i32, hi: int, lo: int)
    requires
        -64 <= lo,
        hi <= 319,
    ensures
        topmost(entries, x, z, hi, lo) matches Some(pos) ==> pos.x == x && pos.z == z && lo <= pos.y
            <= hi && vulnerable(entries, pos),
    decreases hi - lo + 1,
{
    if hi >= lo && !vulnerable(entries, IVec3 { x, y: hi as i32, z }) {
        lemma_topmost(entries, x, z, hi - 1, lo);
    }
}

/// Weather never touches the terrain: every block that changed was one of a
/// building or a tree, and is air now. Where damage is not kept, the saved world
/// stays as it is.
pub proof fn law_weather_spares_the_terrain(
    before: Blocks,
    after: Blocks,
    sent_before: Seq<Sent>,
    sent_after: Seq<Sent>,
    kind: WeatherKind,
    persist: bool,
    targets: Seq<(i32, i32)>,
    pos: IVec3,
)
    requires
        before.wf(),
        all_struck(before, after, sent_before, sent_after, kind, persist, targets),
    ensures
        block_at(after.columns(), pos) == block_at(before.columns(), pos) || (vulnerable(
            before.columns(),
            pos,
        ) && block_at(after.columns(), pos) == Some(BlockState { raw: AIR_STATE })),
        !persist ==> after.edits == before.edits,
    decreases targets.len(),
{
    if targets.len() > 0 {
        let (mid, sent_mid) = choose|mid: Blocks, sent_mid: Seq<Sent>|
            #![trigger struck(mid, after, sent_mid, sent_after, kind, persist, targets.last())]
            mid.wf() && all_struck(
                before,
                mid,
                sent_before,
                sent_mid,
                kind,
                persist,
                targets.drop_last(),
            ) && struck(mid, after, sent_mid, sent_after, kind, persist, targets.last());
        law_weather_spares_the_terrain(
            before,
            mid,
            sent_before,
            sent_mid,
            kind,
            persist,
            targets.drop_last(),
            pos,
        );
        let target = targets.last();
        let air = BlockState { raw: AIR_STATE };
        lemma_topmost(mid.columns(), target.0, target.1, reach(kind).0, reach(kind).1);
        match topmost(mid.columns(), target.0, target.1, reach(kind).0, reach(kind).1) {
            None => {},
            Some(hit) => {
                law_read_after_set(mid, after, hit, air, persist, pos);
                law_read_after_set(mid, after, hit, air, persist, hit);
            },
        }
    }
}

/// Permanent damage is kept: every block that it changed is saved as air, no edit
/// that was kept before is lost, and those of blocks that it left alone keep their
/// states.
pub proof fn law_permanent_damage_is_kept(
    before: Blocks,
    after: Blocks,
    sent_before: Seq<Sent>,
    sent_after: Seq<Sent>,
    kind: WeatherKind,
    targets: Seq<(i32, i32)>,
    pos: IVec3,
)
    requires
        before.wf(),
        before.edits is Some,
        all_struck(before, after, sent_before, sent_after, kind, true, targets),
    ensures
        after.edits is Some,
        forall|q: IVec3| #[trigger]
            kept_edits(before.edits).contains_key(q) ==> kept_edits(after.edits).contains_key(q) && (
            block_at(after.columns(), q) == block_at(before.columns(), q) ==> kept_edits(
                after.edits,
            )[q] == kept_edits(before.edits)[q]),
        block_at(after.columns(), pos) != block_at(before.columns(), pos) ==> saved_as_air(
            after,
            pos,
        ),
    decreases targets.len(),
{
    if targets.len() > 0 {
        let (mid, sent_mid) = choose|mid: Blocks, sent_mid: Seq<Sent>|
            #![trigger struck(mid, after, sent_mid, sent_after, kind, true, targets.last())]
            mid.wf() && all_struck(
                before,
                mid,
                sent_before,
                sent_mid,
                kind,
                true,
                targets.drop_last(),
            ) && struck(mid, after, sent_mid, sent_after, kind, true, targets.last());
        law_permanent_damage_is_kept(
            before,
            mid,
            sent_before,
            sent_mid,
            kind,
            targets.drop_last(),
            pos,
        );
        let target = targets.last();
        let air = BlockState { raw: AIR_STATE };
        lemma_topmost(mid.columns(), target.0, target.1, reach(kind).0, reach(kind).1);
        match topmost(mid.columns(), target.0, target.1, reach(kind).0, reach(kind).1) {
            None => {},
            Some(hit) => {
                law_read_after_set(mid, after, hit, air, true, pos);
                law_read_after_set(mid, after, hit, air, true, hit);
                let kept = kept_edits(after.edits);
                assert(kept == kept_edits(mid.edits).insert(hit, air));
                assert forall|q: IVec3| #[trigger] kept_edits(before.edits).contains_key(q) implies kept.contains_key(
                    q,
                ) && (block_at(after.columns(), q) == block_at(before.columns(), q) ==> kept[q]
                    == kept_edits(before.edits)[q]) by {
                    law_read_after_set(mid, after, hit, air, true, q);
                    law_weather_spares_the_terrain(
                        before,
                        mid,
                        sent_before,
                        sent_mid,
                        kind,
                        true,
                        targets.drop_last(),
                        q,
                    );
                    assert(!structural(air));
                }
                if block_at(mid.columns(), pos) != block_at(before.columns(), pos) {
                    let q = choose|q: IVec3|
                        kept_edits(mid.edits).contains_key(q) && kept_edits(mid.edits)[q] == air
                            && #[trigger] same_block(q, pos);
                    assert(kept.contains_key(q) && kept[q] == air && same_block(q, pos));
                } else if block_at(after.columns(), pos) != block_at(before.columns(), pos) {
                    assert(kept.contains_key(hit) && kept[hit] == air && same_block(hit, pos));
                }
            },
        }
    }
}

/// Some kept edit makes the block at `pos` air.
pub open spec fn saved_as_air(blocks: Blocks, pos: IVec3) -> bool {
    exists|q: IVec3|
        kept_edits(blocks.edits).contains_key(q) && kept_edits(blocks.edits)[q] == (BlockState {
            raw: AIR_STATE,
        }) && #[trigger] same_block(q, pos)
}

/// The weather after `n` ticks.
pub open spec fn ticked_times(w: Weather, n: nat) -> Weather
    decreases n,
{
    if n == 0 {
        w
    } else {
        ticked(ticked_times(w, (n - 1) as nat))
    }
}

proof fn lemma_countdown(w: Weather, n: nat)
    requires
        w.wf(),
        w.kind != WeatherKind::Calm,
        w.next_pulse == 0,
        1 <= n <= pulse_gap(w.intensity),
        n <= w.ticks_left,
    ensures
        ticked_times(w, n) == (Weather {
            ticks_left: (w.ticks_left - n) as u32,
            next_pulse: (pulse_gap(w.intensity) - n) as u32,
            ..w
        }),
    decreases n,
{
    reveal_with_fuel(ticked_times, 2);
    if n > 1 {
        lemma_countdown(w, (n - 1) as nat);
    }
}

/// As long as an event lasts, its pulses come [`pulse_gap`] ticks apart: none comes
/// between, and that many ticks after one there is the next. At full strength that
/// is every five ticks.
pub proof fn law_pulses_are_regular(w: Weather, n: nat)
    requires
        w.wf(),
        pulse_due(w) is Some,
        1 <= n <= pulse_gap(w.intensity),
        n < w.ticks_left,
    ensures
        pulse_due(ticked_times(w, n)) is Some <==> n == pulse_gap(w.intensity),
        ticked_times(w, n).kind == w.kind,
        ticked_times(w, n).intensity == w.intensity,
        w.intensity == 12 ==> pulse_gap(w.intensity) == 5,
{
    lemma_countdown(w, n);
}

/// An event ends: with every tick less of it is left, and then it is calm.
pub proof fn law_weather_ends(w: Weather)
    requires
        w.wf(),
        w.kind != WeatherKind::Calm,
    ensures
        w.ticks_left > 0 ==> ticked(w).ticks_left == w.ticks_left - 1 && ticked(w).kind == w.kind,
        w.ticks_left == 0 ==> ticked(w).kind == WeatherKind::Calm && ticked(w).intensity == 0,
        ticked(w).persist_damage == w.persist_damage,
        ticked(w).auto_follow == w.auto_follow,
{
}

/// The hit is the highest: the block found is one in reach that may be destroyed, and
/// none above it may be; there is none only where no block in reach may be destroyed.
pub proof fn law_hit_is_the_highest(
    entries: Seq<((i16, i16), Column)>,
    x: i32,
    z: i32,
    hi: int,
    lo: int,
)
    requires
        -64 <= lo,
        hi <= 319,
    ensures
        match topmost(entries, x, z, hi, lo) {
            Some(pos) => {
                &&& pos.x == x && pos.z == z && lo <= pos.y <= hi
                &&& block_at(entries, pos) matches Some(state) && structural(state)
                &&& forall|y: i32|
                    pos.y < y <= hi ==> !(#[trigger] block_at(entries, IVec3 { x, y, z }) matches Some(
                        state,
                    ) && structural(state))
            },
            None => forall|y: i32|
                lo <= y <= hi ==> !(#[trigger] block_at(entries, IVec3 { x, y, z }) matches Some(
                    state,
                ) && structural(state)),
        },
    decreases hi - lo + 1,
{
    if hi >= lo && !vulnerable(entries, IVec3 { x, y: hi as i32, z }) {
        law_hit_is_the_highest(entries, x, z, hi - 1, lo);
    }
}

/// One hit on a column turns the highest block that may be destroyed into air, and no
/// other, and tells the players near it; an earthquake looks from height 66 down to 60,
/// a storm from 90 down to 65.
pub proof fn law_one_hit_takes_the_highest_block(
    before: Blocks,
    after: Blocks,
    sent_before: Seq<Sent>,
    sent_after: Seq<Sent>,
    kind: WeatherKind,
    persist: bool,
    target: (i32, i32),
    y: i32,
    pos: IVec3,
)
    requires
        before.wf(),
        struck(before, after, sent_before, sent_after, kind, persist, target),
        kind == WeatherKind::Quake ==> 60 <= y <= 66,
        kind != WeatherKind::Quake ==> 65 <= y <= 90,
        block_at(before.columns(), IVec3 { x: target.0, y, z: target.1 }) matches Some(state)
            && structural(state),
        forall|above: i32|
            y < above <= (if kind == WeatherKind::Quake {
                66int
            } else {
                90
            }) ==> !(#[trigger] block_at(
                before.columns(),
                IVec3 { x: target.0, y: above, z: target.1 },
            ) matches Some(state) && structural(state)),
    ensures
        ({
            let hit = IVec3 { x: target.0, y, z: target.1 };
            let air = BlockState { raw: AIR_STATE };
            &&& block_at(after.columns(), hit) == Some(air)
            &&& !same_block(hit, pos) ==> block_at(after.columns(), pos) == block_at(
                before.columns(),
                pos,
            )
            &&& sent_after == sent_before + update_of(hit, air)
            &&& persist && before.edits is Some ==> kept_edits(after.edits) == kept_edits(
                before.edits,
            ).insert(hit, air)
            &&& !persist ==> after.edits == before.edits
        }),
{
    let hi: int = if kind == WeatherKind::Quake {
        66
    } else {
        90
    };
    let lo: int = if kind == WeatherKind::Quake {
        60
    } else {
        65
    };
    let hit = IVec3 { x: target.0, y, z: target.1 };
    law_hit_is_the_highest(before.columns(), target.0, target.1, hi, lo);
    match topmost(before.columns(), target.0, target.1, hi, lo) {
        None => {
            assert(block_at(before.columns(), IVec3 { x: target.0, y, z: target.1 }) is Some);
        },
        Some(found) => {
            assert(block_at(before.columns(), IVec3 { x: target.0, y: found.y, z: target.1 })
                == block_at(before.columns(), found));
            assert(block_at(before.columns(), hit) is Some);
            assert(found == hit);
            law_read_after_set(before, after, hit, BlockState { raw: AIR_STATE }, persist, hit);
            law_read_after_set(before, after, hit, BlockState { raw: AIR_STATE }, persist, pos);
        },
    }
}

/// A hit on a column where nothing in reach may be destroyed does nothing.
pub proof fn law_hit_on_nothing_changes_nothing(
    before: Blocks,
    after: Blocks,
    sent_before: Seq<Sent>,
    sent_after: Seq<Sent>,
    kind: WeatherKind,
    persist: bool,
    target: (i32, i32),
)
    requires
        before.wf(),
        struck(before, after, sent_before, sent_after, kind, persist, target),
        forall|y: i32|
            (if kind == WeatherKind::Quake {
                60int
            } else {
                65
            }) <= y <= (if kind == WeatherKind::Quake {
                66int
            } else {
                90
            }) ==> !(#[trigger] block_at(
                before.columns(),
                IVec3 { x: target.0, y, z: target.1 },
            ) matches Some(state) && structural(state)),
    ensures
        after == before,
        sent_after == sent_before,
{
    let hi: int = if kind == WeatherKind::Quake {
        66
    } else {
        90
    };
    let lo: int = if kind == WeatherKind::Quake {
        60
    } else {
        65
    };
    law_hit_is_the_highest(before.columns(), target.0, target.1, hi, lo);
    if let Some(found) = topmost(before.columns(), target.0, target.1, hi, lo) {
        assert(block_at(before.columns(), IVec3 { x: target.0, y: found.y, z: target.1 })
            == block_at(before.columns(), found));
    }
}

/// No target is passed over: whichever of the columns it is, and wherever in the list,
/// the highest block in reach that could be destroyed is air in the end.
pub proof fn law_every_target_is_hit(
    before: Blocks,
    after: Blocks,
    sent_before: Seq<Sent>,
    sent_after: Seq<Sent>,
    kind: WeatherKind,
    persist: bool,
    targets: Seq<(i32, i32)>,
    i: int,
    y: i32,
)
    requires
        before.wf(),
        all_struck(before, after, sent_before, sent_after, kind, persist, targets),
        0 <= i < targets.len(),
        kind == WeatherKind::Quake ==> 60 <= y <= 66,
        kind != WeatherKind::Quake ==> 65 <= y <= 90,
        block_at(before.columns(), IVec3 { x: targets[i].0, y, z: targets[i].1 }) matches Some(state)
            && structural(state),
        forall|above: i32|
            y < above <= (if kind == WeatherKind::Quake {
                66int
            } else {
                90
            }) ==> !(#[trigger] block_at(
                before.columns(),
                IVec3 { x: targets[i].0, y: above, z: targets[i].1 },
            ) matches Some(state) && structural(state)),
    ensures
        block_at(after.columns(), IVec3 { x: targets[i].0, y, z: targets[i].1 }) == Some(
            BlockState { raw: AIR_STATE },
        ),
    decreases targets.len(),
{
    let hit = IVec3 { x: targets[i].0, y, z: targets[i].1 };
    let air = BlockState { raw: AIR_STATE };
    let fewer = targets.drop_last();
    let (mid, sent_mid) = choose|mid: Blocks, sent_mid: Seq<Sent>|
        #![trigger struck(mid, after, sent_mid, sent_after, kind, persist, targets.last())]
        mid.wf() && all_struck(before, mid, sent_before, sent_mid, kind, persist, fewer) && struck(
            mid,
            after,
            sent_mid,
            sent_after,
            kind,
            persist,
            targets.last(),
        );
    law_weather_spares_the_terrain(before, mid, sent_before, sent_mid, kind, persist, fewer, hit);
    if i < fewer.len() {
        law_every_target_is_hit(
            before,
            mid,
            sent_before,
            sent_mid,
            kind,
            persist,
            fewer,
            i,
            y,
        );
    }
    assert(!structural(air));
    if block_at(mid.columns(), hit) == Some(air) {
        let target = targets.last();
        lemma_topmost(mid.columns(), target.0, target.1, reach(kind).0, reach(kind).1);
        if let Some(found) = topmost(
            mid.columns(),
            target.0,
            target.1,
            reach(kind).0,
            reach(kind).1,
        ) {
            law_read_after_set(mid, after, found, air, persist, hit);
        }
    } else {
        assert forall|above: i32|
            y < above <= (if kind == WeatherKind::Quake {
                66int
            } else {
                90
            }) implies !(#[trigger] block_at(
            mid.columns(),
            IVec3 { x: targets[i].0, y: above, z: targets[i].1 },
        ) matches Some(state) && structural(state)) by {
            let above = IVec3 { x: targets[i].0, y: above, z: targets[i].1 };
            law_weather_spares_the_terrain(
                before,
                mid,
                sent_before,
                sent_mid,
                kind,
                persist,
                fewer,
                above,
            );
            assert(block_at(before.columns(), above) == block_at(before.columns(), above));
        }
        law_one_hit_takes_the_highest_block(
            mid,
            after,
            sent_mid,
            sent_after,
            kind,
            persist,
            targets.last(),
            y,
            hit,
        );
    }
}

/// A level is brought into the range from 1 to 12 by no more than it takes: no level is
/// nearer to what was asked for.
pub proof fn law_level_is_the_nearest(v: u8, level: int)
    requires
        1 <= level <= 12,
    ensures
        1 <= clamp_level(v) <= 12,
        v <= clamp_level(v) <= level || level <= clamp_level(v) <= v || clamp_level(v) == v,
{
}

/// Stronger weather strikes no less often: each level takes three ticks off the gap of
/// forty between two pulses, until five are left.
pub proof fn law_stronger_weather_strikes_more_often(a: u8, b: u8)
    requires
        a <= b <= 12,
    ensures
        5 <= pulse_gap(b) <= pulse_gap(a) <= 40,
        pulse_gap(b) > 5 ==> pulse_gap(a) - pulse_gap(b) == 3 * (b - a),
        a == 0 ==> pulse_gap(a) == 40,
        3 * a >= 35 ==> pulse_gap(a) == 5,
        3 * a < 35 ==> pulse_gap(a) > 5,
{
}

/// An event acts exactly in the ticks that it lasts and that the countdown has run out
/// in: as what it is and with its strength, hitting one column and one more for every
/// two levels.
pub proof fn law_pulse_has_the_strength_of_the_event(w: Weather)
    requires
        w.wf(),
    ensures
        pulse_due(w) is Some <==> (w.kind == WeatherKind::Storm || w.kind == WeatherKind::Quake)
            && w.ticks_left > 0 && w.next_pulse == 0,
        pulse_due(w) matches Some(pulse) ==> pulse.kind == w.kind && pulse.intensity == w.intensity
            && pulse.persist == w.persist_damage && 2 * (pulse.hits - 1) <= w.intensity < 2
            * pulse.hits,
{
}

/// The readout of a running event shows every tenth tick, and on the last one. It tells
/// the seconds that are left.
pub proof fn law_readout_comes_twice_a_second(w: Weather)
    requires
        w.wf(),
        w.kind != WeatherKind::Calm,
    ensures
        w.ticks_left == 0 ==> hud_shown(w) is Some,
        w.ticks_left == 1 ==> hud_shown(w) is Some,
        w.ticks_left > 0 && hud_shown(w) is Some ==> forall|n: nat|
            n < 10 && n < w.ticks_left ==> (#[trigger] hud_shown(ticked_times(w, n)) is Some <==> n
                == 0),
        w.ticks_left > 10 && hud_shown(w) is Some ==> hud_shown(ticked_times(w, 10)) is Some,
        w.ticks_left > 0 ==> (hud_shown(w) matches Some(text) ==> exists|secs: int|
            20 * secs < w.ticks_left <= 20 * secs + 20 && text == #[trigger] hud_text(
                w.kind,
                w.intensity,
                secs,
            )),
{
    if w.ticks_left > 0 {
        assert forall|n: nat| n < 10 && n < w.ticks_left && hud_shown(w) is Some implies (
        #[trigger] hud_shown(ticked_times(w, n)) is Some <==> n == 0) by {
            lemma_time_passes(w, n);
        }
        if w.ticks_left > 10 {
            lemma_time_passes(w, 10);
        }
        let secs = (w.ticks_left - 1) / 20;
        assert(20 * secs < w.ticks_left <= 20 * secs + 20);
        if hud_shown(w) is Some {
            assert(hud_shown(w) == Some(hud_text(w.kind, w.intensity, secs)));
        }
    }
}

/// An event goes on as long as ticks are left of it.
proof fn lemma_time_passes(w: Weather, n: nat)
    requires
        w.kind != WeatherKind::Calm,
        n <= w.ticks_left,
    ensures
        ticked_times(w, n).kind == w.kind,
        ticked_times(w, n).intensity == w.intensity,
        ticked_times(w, n).ticks_left == w.ticks_left - n,
        ticked_times(w, n).persist_damage == w.persist_damage,
        ticked_times(w, n).auto_follow == w.auto_follow,
    decreases n,
{
    if n > 0 {
        lemma_time_passes(w, (n - 1) as nat);
    }
}

/// An event that was started acts at once and lasts for the seconds asked for, at twenty
/// ticks each: it is there after all of them but the last, and one tick later it is calm.
pub proof fn law_event_lasts_as_long_as_asked(
    w: Weather,
    kind: WeatherKind,
    level: u8,
    seconds: u32,
    n: nat,
)
    requires
        kind != WeatherKind::Calm,
        seconds * 20 <= u32::MAX,
        n <= seconds * 20,
    ensures
        ({
            let started = w.started(kind, level, seconds);
            &&& seconds > 0 ==> pulse_due(started) is Some
            &&& ticked_times(started, n).kind == kind
            &&& 1 <= level <= 12 ==> ticked_times(started, n).intensity == level
            &&& ticked_times(started, (seconds * 20 + 1) as nat).kind == WeatherKind::Calm
            &&& ticked_times(started, n).persist_damage == w.persist_damage
            &&& ticked_times(started, n).auto_follow == w.auto_follow
        }),
{
    let started = w.started(kind, level, seconds);
    lemma_time_passes(started, n);
    lemma_time_passes(started, (seconds * 20) as nat);
}

/// Once the weather was calmed nothing happens any more, however much time passes, and
/// the settings stay.
pub proof fn law_calm_stays_calm(w: Weather, n: nat)
    ensures
        ticked_times(w.calmed(), n) == w.calmed(),
        pulse_due(w.calmed()) is None,
        hud_shown(w.calmed()) is None,
        w.calmed().intensity == 0,
        w.calmed().persist_damage == w.persist_damage,
        w.calmed().auto_follow == w.auto_follow,
    decreases n,
{
    if n > 0 {
        law_calm_stays_calm(w, (n - 1) as nat);
    }
}

/// The readout draws the strength as a bar of twelve: as many full pieces as the level,
/// then empty ones, between the level as a number and the seconds.
pub proof fn law_readout_draws_the_level(kind: WeatherKind, intensity: u8, secs: int)
    requires
        intensity <= 12,
        kind != WeatherKind::Calm,
    ensures
        exists|head: Seq<char>, bar: Seq<char>, tail: Seq<char>|
            {
                &&& hud_text(kind, intensity, secs) == #[trigger] (head + int_text(
                    intensity as int,
                ) + " §8["@ + bar + tail + int_text(secs) + "s"@)
                &&& bar.len() == 12
                &&& forall|k: int|
                    0 <= k < 12 ==> #[trigger] bar[k] == (if k < intensity {
                        '▰'
                    } else {
                        '▱'
                    })
                &&& head == (if kind == WeatherKind::Storm {
                    "§c"@ + "⚡"@ + " "@ + "Storm"@ + " Lv"@
                } else {
                    "§6"@ + "§6☶§r"@ + " "@ + "Quake"@ + " Lv"@
                })
                &&& tail == (if kind == WeatherKind::Storm {
                    "§c"@
                } else {
                    "§6"@
                }) + "§8] §7"@
            },
{
    reveal_strlit("▰");
    reveal_strlit("▱");
    let full = repeated("▰"@, intensity as nat);
    let empty = repeated("▱"@, (12 - intensity) as nat);
    law_repeated_is_the_piece_again("▰"@, intensity as nat);
    law_repeated_is_the_piece_again("▱"@, (12 - intensity) as nat);
    let bar = full + empty;
    let color = if kind == WeatherKind::Storm {
        "§c"@
    } else {
        "§6"@
    };
    let head = if kind == WeatherKind::Storm {
        "§c"@ + "⚡"@ + " "@ + "Storm"@ + " Lv"@
    } else {
        "§6"@ + "§6☶§r"@ + " "@ + "Quake"@ + " Lv"@
    };
    let tail = color + "§8] §7"@;
    assert(hud_text(kind, intensity, secs) =~= head + int_text(intensity as int) + " §8["@ + bar
        + tail + int_text(secs) + "s"@);
    assert forall|k: int| 0 <= k < 12 implies #[trigger] bar[k] == (if k < intensity {
        '▰'
    } else {
        '▱'
    }) by {
        if k < intensity {
            assert(bar[k] == full[k]);
        } else {
            assert(bar[k] == empty[k - intensity]);
        }
    }
}

/// Lightning comes with storms only, never without a player to strike near, and the
/// stronger the storm the likelier: of the sixty rolls as many strike as the level says.
pub proof fn law_lightning_grows_with_the_storm(
    pulse: Pulse,
    players: usize,
    roll: u8,
    index: usize,
    stronger: u8,
)
    requires
        roll < 60,
        pulse.intensity <= stronger,
    ensures
        lightning_player(pulse, 0, roll, index) is None,
        pulse.kind != WeatherKind::Storm ==> lightning_player(pulse, players, roll, index) is None,
        lightning_player(pulse, players, roll, index) matches Some(i) ==> i == index && roll
            < pulse.intensity && lightning_player(
            Pulse { intensity: stronger, ..pulse },
            players,
            roll,
            index,
        ) == Some(index),
        players > 0 && pulse.kind == WeatherKind::Storm && roll < pulse.intensity
            ==> lightning_player(pulse, players, roll, index) is Some,
{
}

} // verus!
