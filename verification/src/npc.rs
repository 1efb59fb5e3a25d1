//! The village guide: a villager who answers through the assistant when a player
//! clicks on it, and the animals around.

use vstd::prelude::*;

use crate::bridge::AiRequest;
use crate::chance::random_u32;
use crate::session::ConnectionId;
use crate::text::{chars_of, joined, same_text, trim, trimmed};

verus! {

/// Ticks between two answers of the guide (two seconds).
pub const TALK_COOLDOWN_TICKS: i64 = 40;

/// A player's click on an entity.
#[derive(Clone, Debug, PartialEq, Eq)]
pub struct Interaction {
    /// Whether it was a plain click with a hand.
    pub interact: bool,
    /// The entity that was clicked on, by its number in the game protocol.
    pub target: i32,
    /// The player's connection and place, as bit patterns, where both are known.
    pub player: Option<(ConnectionId, [u32; 3])>,
}

/// When the guide last talked.
#[derive(Clone, Debug, PartialEq, Eq)]
pub struct NpcTalk {
    pub last_tick: i64,
}

/// Whether a click in the tick `tick` makes the guide talk: it is a plain click on
/// one of `npcs`, and the last talk is long enough ago.
pub open spec fn makes_talk(last_tick: i64, i: Interaction, npcs: Seq<i32>, tick: i64) -> bool {
    i.interact && npcs.contains(i.target) && tick - last_tick >= TALK_COOLDOWN_TICKS
}

/// What the guide asks the assistant.
pub open spec fn guide_prompt() -> Seq<char> {
    "[You are a friendly village-guide NPC in this Minecraft village. A player just walked up and interacted with you. Greet them warmly in ONE short sentence, and offer to build something nearby if they ask.]"@
}

fn is_among(npcs: &Vec<i32>, target: i32) -> (r: bool)
    ensures
        r == npcs@.contains(target),
{
    let mut i: usize = 0;
    while i < npcs.len()
        invariant
            i <= npcs@.len(),
            forall|k: int| 0 <= k < i ==> npcs@[k] != target,
        decreases npcs@.len() - i,
    {
        if npcs[i] == target {
            return true;
        }
        i += 1;
    }
    false
}

impl NpcTalk {
    /// The guide has not talked since the first tick.
    pub fn new() -> (r: Self)
        ensures
            r.last_tick == 0,
    {
        NpcTalk { last_tick: 0 }
    }

    /// What a click comes to: the request to send to the assistant, if any. The
    /// pause until the next talk also begins where the player is not known.
    pub fn npc_interactions(&mut self, i: Interaction, npcs: &Vec<i32>, tick: i64) -> (r: Option<
        AiRequest,
    >)
        ensures
            final(self).last_tick == (if makes_talk(old(self).last_tick, i, npcs@, tick) {
                tick
            } else {
                old(self).last_tick
            }),
            match r {
                Some(req) => {
                    &&& makes_talk(old(self).last_tick, i, npcs@, tick)
                    &&& i.player matches Some((connection, pos))
                    &&& req.connection == connection
                    &&& req.pos == Some(pos)
                    &&& req.prompt@ == guide_prompt()
                },
                None => !makes_talk(old(self).last_tick, i, npcs@, tick) || i.player is None,
            },
    {
        if !i.interact {
            return None;
        }
        if !is_among(npcs, i.target) {
            return None;
        }
        if (tick as i128 - self.last_tick as i128) < TALK_COOLDOWN_TICKS as i128 {
            return None;
        }
        self.last_tick = tick;
        match i.player {
            Some((connection, pos)) => Some(
                AiRequest {
                    connection,
                    prompt:
                        "[You are a friendly village-guide NPC in this Minecraft village. A player just walked up and interacted with you. Greet them warmly in ONE short sentence, and offer to build something nearby if they ask.]".to_owned(),
                    pos: Some(pos),
                },
            ),
            None => None,
        }
    }
}

/// Between two talks of the guide there is always a pause.
pub proof fn law_guide_pauses(last_tick: i64, i: Interaction, npcs: Seq<i32>, tick: i64, next: Interaction, later: i64)
    requires
        makes_talk(last_tick, i, npcs, tick),
        makes_talk(tick, next, npcs, later),
    ensures
        later >= tick + TALK_COOLDOWN_TICKS,
{
}

/// The animals of the village.
#[derive(Clone, Copy, PartialEq, Eq, Structural, Debug)]
pub enum Animal {
    Cow,
    Pig,
    Sheep,
    Chicken,
}

/// The animals and where they live, as offsets along x and z from the middle of the
/// village.
pub open spec fn village_animals() -> Seq<(Animal, i32, i32)> {
    seq![
        (Animal::Cow, 8i32, 10i32),
        (Animal::Pig, (-12) as i32, 9i32),
        (Animal::Sheep, 14i32, (-8) as i32),
        (Animal::Chicken, (-10) as i32, (-12) as i32),
        (Animal::Cow, 20i32, 2i32),
        (Animal::Pig, (-22) as i32, 4i32),
        (Animal::Sheep, 4i32, (-20) as i32),
        (Animal::Chicken, (-4) as i32, 18i32),
    ]
}

/// The animals to spawn and where.
pub fn spawn_animals() -> (r: Vec<(Animal, i32, i32)>)
    ensures
        r@ == village_animals(),
{
    let kinds = [Animal::Cow, Animal::Pig, Animal::Sheep, Animal::Chicken];
    let spots: [(i32, i32); 8] = [
        (8, 10),
        (-12, 9),
        (14, -8),
        (-10, -12),
        (20, 2),
        (-22, 4),
        (4, -20),
        (-4, 18),
    ];
    let mut r: Vec<(Animal, i32, i32)> = Vec::new();
    let mut i: usize = 0;
    while i < 8
        invariant
            i <= 8,
            kinds@ == seq![Animal::Cow, Animal::Pig, Animal::Sheep, Animal::Chicken],
            spots@.len() == 8,
            forall|k: int|
                0 <= k < 8 ==> #[trigger] spots@[k] == (village_animals()[k].1, village_animals()[k].2),
            r@ =~= village_animals().take(i as int),
        decreases 8 - i,
    {
        let (x, z) = spots[i];
        let kind = kinds[i % 4];
        proof {
            assert(spots@[i as int] == (village_animals()[i as int].1, village_animals()[i as int].2));
            assert(kind == village_animals()[i as int].0);
        }
        r.push((kind, x, z));
        i += 1;
    }
    assert(village_animals().take(8) =~= village_animals());
    r
}

/// One tick of an animal's walk: whether it picks a new heading, and how many ticks
/// are left of it then. A heading is kept for at least twenty ticks, and `roll`
/// more.
pub fn wander_step(ticks_left: u32, roll: u32) -> (r: (bool, u32))
    requires
        roll < 60,
    ensures
        r == (if ticks_left == 0 {
            (true, (19 + roll) as u32)
        } else {
            (false, (ticks_left - 1) as u32)
        }),
{
    if ticks_left == 0 {
        (true, 20 + roll - 1)
    } else {
        (false, ticks_left - 1)
    }
}

/// One tick of an animal's walk, with a random length of the next heading.
pub fn wander(ticks_left: u32) -> (r: (bool, u32))
    ensures
        r.0 == (ticks_left == 0),
        ticks_left > 0 ==> r.1 == ticks_left - 1,
        ticks_left == 0 ==> 19 <= r.1 < 79,
{
    if ticks_left == 0 {
        wander_step(0, random_u32(60))
    } else {
        wander_step(ticks_left, 0)
    }
}

/// Whether this is the first time that `done` is asked about.
pub fn first_time(done: &mut bool) -> (r: bool)
    ensures
        r == !*old(done),
        *final(done),
{
    if *done {
        return false;
    }
    *done = true;
    true
}

/// Whether the server runs in skyblock mode, given what `HYPERION_GAMEMODE` is set
/// to. The village stays empty then.
pub fn is_skyblock(setting: Option<&str>) -> (r: bool)
    ensures
        r == (setting matches Some(s) && s@ == "skyblock"@),
{
    match setting {
        Some(s) => same_text(s, "skyblock"),
        None => false,
    }
}

/// The parts of `s` between commas, in order.
pub open spec fn comma_parts(s: Seq<char>) -> Seq<Seq<char>>
    decreases s.len(),
{
    if s.len() == 0 {
        seq![Seq::empty()]
    } else {
        let front = comma_parts(s.drop_last());
        if s.last() == ',' {
            front.push(Seq::empty())
        } else {
            front.drop_last().push(front.last().push(s.last()))
        }
    }
}

/// Splits `s` at commas.
fn split_at_commas(s: &str) -> (r: Vec<String>)
    ensures
        r@.len() == comma_parts(s@).len(),
        forall|i: int| 0 <= i < r@.len() ==> (#[trigger] r@[i])@ == comma_parts(s@)[i],
{
    let cs = chars_of(s);
    let mut parts: Vec<String> = Vec::new();
    let mut part = String::new();
    let mut i: usize = 0;
    proof {
        assert(cs@.take(0) =~= Seq::empty());
        assert(part@ =~= Seq::empty());
    }
    while i < cs.len()
        invariant
            i <= cs@.len(),
            parts@.len() + 1 == comma_parts(cs@.take(i as int)).len(),
            forall|k: int|
                0 <= k < parts@.len() ==> (#[trigger] parts@[k])@ == comma_parts(
                    cs@.take(i as int),
                )[k],
            part@ == comma_parts(cs@.take(i as int)).last(),
        decreases cs@.len() - i,
    {
        let c = cs[i];
        proof {
            let more = cs@.take(i + 1);
            assert(more.drop_last() =~= cs@.take(i as int));
            assert(more.last() == c);
        }
        if c == ',' {
            parts.push(part);
            part = String::new();
            assert(part@ =~= Seq::empty());
        } else {
            part.push(c);
        }
        i += 1;
    }
    assert(cs@.take(cs@.len() as int) =~= cs@);
    parts.push(part);
    parts
}

/// The three coordinates of a place written as `x,y,z`, without the space around
/// them; `None` where there are more or fewer.
pub fn vec3_parts(raw: &str) -> (r: Option<(String, String, String)>)
    ensures
        match r {
            Some((x, y, z)) => {
                let parts = comma_parts(raw@);
                &&& parts.len() == 3
                &&& x@ == trimmed(parts[0])
                &&& y@ == trimmed(parts[1])
                &&& z@ == trimmed(parts[2])
            },
            None => comma_parts(raw@).len() != 3,
        },
{
    let parts = split_at_commas(raw);
    if parts.len() != 3 {
        return None;
    }
    Some((trim(parts[0].as_str()), trim(parts[1].as_str()), trim(parts[2].as_str())))
}

/// The guide talks on every plain click on one of the guides, once forty ticks have passed
/// since it last did, and on no other.
pub proof fn law_guide_talks_again_after_the_pause(
    last_tick: i64,
    i: Interaction,
    npcs: Seq<i32>,
    tick: i64,
    later: i64,
)
    ensures
        makes_talk(last_tick, i, npcs, tick) && tick <= later ==> makes_talk(
            last_tick,
            i,
            npcs,
            later,
        ),
        i.interact && (exists|k: int| 0 <= k < npcs.len() && #[trigger] npcs[k] == i.target) && tick
            - last_tick >= 40 ==> makes_talk(last_tick, i, npcs, tick),
        tick - last_tick < 40 ==> !makes_talk(last_tick, i, npcs, tick),
        !i.interact ==> !makes_talk(last_tick, i, npcs, tick),
        (forall|k: int| 0 <= k < npcs.len() ==> #[trigger] npcs[k] != i.target) ==> !makes_talk(
            last_tick,
            i,
            npcs,
            tick,
        ),
{
}

/// Splitting at commas loses nothing: joined again with commas the parts are the whole
/// text, and no part has a comma in it.
pub proof fn law_parts_between_commas_make_the_whole(s: Seq<char>)
    ensures
        comma_parts(s).len() > 0,
        joined(comma_parts(s), seq![',']) == s,
        forall|i: int, k: int|
            0 <= i < comma_parts(s).len() && 0 <= k < comma_parts(s)[i].len()
                ==> #[trigger] comma_parts(s)[i][k] != ',',
    decreases s.len(),
{
    let parts = comma_parts(s);
    if s.len() == 0 {
        assert(joined(parts, seq![',']) =~= s);
    } else {
        let front = comma_parts(s.drop_last());
        law_parts_between_commas_make_the_whole(s.drop_last());
        if s.last() == ',' {
            assert(parts.drop_last() =~= front);
            assert(joined(parts, seq![',']) =~= s);
        } else {
            let last = front.last().push(s.last());
            assert(parts.drop_last() =~= front.drop_last());
            assert(parts.last() == last);
            if front.len() == 1 {
                assert(joined(parts, seq![',']) =~= s);
            } else {
                assert(joined(parts, seq![',']) =~= joined(front, seq![',']).push(s.last()));
                assert(joined(parts, seq![',']) =~= s);
            }
            assert forall|i: int, k: int|
                0 <= i < parts.len() && 0 <= k < parts[i].len() implies #[trigger] parts[i][k]
                != ',' by {
                if i < parts.len() - 1 {
                    assert(parts[i] == front[i]);
                } else if k < front.last().len() {
                    assert(parts[i][k] == front[front.len() - 1][k]);
                }
            }
        }
    }
}

} // verus!
