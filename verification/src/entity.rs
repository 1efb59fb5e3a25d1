//! Entities and the numbers that the game protocol knows them by.
//!
//! The protocol numbers entities with a signed 32-bit integer. An entity goes by
//! its index in the world, reinterpreted as such a number.

use bevy::ecs::entity::Entity;
use bevy::ecs::world::World;
use vstd::prelude::*;

verus! {

#[verifier::external_type_specification]
#[verifier::external_body]
pub struct ExEntity(Entity);

#[verifier::external_type_specification]
#[verifier::external_body]
pub struct ExWorld(World);

/// The index of an entity in its world, without its generation.
pub uninterp spec fn entity_index(e: Entity) -> u32;

/// The entities that a world keeps track of, by index: each has the generation that
/// its index is at, and may be one that is free. Entities that were only reserved are
/// not among them until the world takes them in.
pub uninterp spec fn tracked_entities(world: World) -> Seq<Entity>;

/// The world keeps track of `e`, at its present generation.
pub open spec fn tracks(world: World, e: Entity) -> bool {
    entity_index(e) < tracked_entities(world).len() && tracked_entities(world)[entity_index(
        e,
    ) as int] == e
}

/// `found` is what looking the entity with the index `index` up in `world` can give:
/// the one that the world keeps track of there. Beyond those there may be one that is
/// reserved at that moment, with that index.
pub open spec fn looked_up(world: World, index: u32, found: Option<Entity>) -> bool {
    &&& index < tracked_entities(world).len() ==> found == Some(
        tracked_entities(world)[index as int],
    )
    &&& found matches Some(e) ==> entity_index(e) == index
}

/// The signed number with the same 32 bits as `u`.
pub open spec fn signed(u: u32) -> i32 {
    if u < 0x8000_0000 {
        u as i32
    } else {
        (u - 0x1_0000_0000) as i32
    }
}

/// The unsigned number with the same 32 bits as `i`.
pub open spec fn unsigned(i: i32) -> u32 {
    if i >= 0 {
        i as u32
    } else {
        (i + 0x1_0000_0000) as u32
    }
}

/// `Entity::index` of bevy: the index that the entity holds.
#[verifier::external_body]
fn index_of(e: &Entity) -> (r: u32)
    ensures
        r == entity_index(*e),
{
    e.index()
}

/// `Entities::resolve_from_id` of bevy: finds the entity that the world keeps track of
/// at that index, whether it is free or not, and whatever it finds has that index.
/// Beyond those, whether it finds one depends on how many are reserved at that moment,
/// which can change while the world is only lent, so that is left open there, and so is
/// the generation.
#[verifier::external_body]
fn resolve(world: &World, index: u32) -> (r: Option<Entity>)
    ensures
        index < tracked_entities(*world).len() ==> r == Some(
            tracked_entities(*world)[index as int],
        ),
        r matches Some(e) ==> entity_index(e) == index,
{
    world.entities().resolve_from_id(index)
}

/// `bytemuck::cast` from `u32` to `i32`: the same bits, read as a signed number.
#[verifier::external_body]
fn cast_to_signed(u: u32) -> (r: i32)
    ensures
        r == signed(u),
{
    bytemuck::cast(u)
}

/// `bytemuck::cast` from `i32` to `u32`: the same bits, read as an unsigned number.
#[verifier::external_body]
fn cast_to_unsigned(i: i32) -> (r: u32)
    ensures
        r == unsigned(i),
{
    bytemuck::cast(i)
}

/// No entity goes by the number that was asked for.
#[derive(Clone, Copy, PartialEq, Eq, Structural, Debug)]
pub struct InvalidEntityId;

impl InvalidEntityId {
    /// The error in words.
    pub fn message(&self) -> (r: &'static str)
        ensures
            r@ == "minecraft id is invalid"@,
    {
        "minecraft id is invalid"
    }
}

/// What the lookup of an entity comes to, once the world has said what it found.
pub fn lookup_result(found: Option<Entity>) -> (r: Result<Entity, InvalidEntityId>)
    ensures
        r == (match found {
            Some(e) => Ok::<Entity, InvalidEntityId>(e),
            None => Err::<Entity, InvalidEntityId>(InvalidEntityId),
        }),
{
    match found {
        Some(e) => Ok(e),
        None => Err(InvalidEntityId),
    }
}

pub trait EntityExt: Sized {
    fn id(&self) -> u32;

    fn from_id(id: u32, world: &World) -> Result<Self, InvalidEntityId>;

    fn minecraft_id(&self) -> i32;

    fn from_minecraft_id(id: i32, world: &World) -> Result<Self, InvalidEntityId>;
}

impl EntityExt for Entity {
    /// The index of the entity.
    fn id(&self) -> (r: u32)
        ensures
            r == entity_index(*self),
    {
        index_of(self)
    }

    /// The entity of `world` with the index `id`; it may have been freed already.
    fn from_id(id: u32, world: &World) -> (r: Result<Self, InvalidEntityId>)
        ensures
            looked_up(*world, id, r.ok()),
    {
        lookup_result(resolve(world, id))
    }

    /// The number of the entity in the game protocol.
    fn minecraft_id(&self) -> (r: i32)
        ensures
            r == signed(entity_index(*self)),
    {
        cast_to_signed(self.id())
    }

    /// The entity of `world` that goes by the number `id` in the game protocol.
    fn from_minecraft_id(id: i32, world: &World) -> (r: Result<Self, InvalidEntityId>)
        ensures
            looked_up(*world, unsigned(id), r.ok()),
    {
        let index: u32 = cast_to_unsigned(id);
        <Entity as EntityExt>::from_id(index, world)
    }
}

/// Going from an index to the protocol's number and back, or the other way round,
/// changes nothing: no two entities share a number that do not share an index.
pub proof fn law_minecraft_number_keeps_the_index(index: u32, id: i32)
    ensures
        unsigned(signed(index)) == index,
        signed(unsigned(id)) == id,
{
}

/// Looking an entity up by its protocol number gives that entity back, where the
/// world keeps track of it, and never one with another index.
pub proof fn law_minecraft_number_finds_the_entity(world: World, e: Entity, found: Option<Entity>)
    requires
        looked_up(world, unsigned(signed(entity_index(e))), found),
    ensures
        tracks(world, e) ==> found == Some(e),
        found matches Some(other) ==> entity_index(other) == entity_index(e),
{
}

/// The protocol's number has the same thirty-two bits as the index: they are equal, or they
/// differ by the two to the thirty-second that two's complement takes off.
pub proof fn law_minecraft_number_has_the_same_bits(index: u32, id: i32)
    ensures
        signed(index) as int == index || signed(index) + 0x1_0000_0000 == index,
        unsigned(id) as int == id || unsigned(id) == id + 0x1_0000_0000,
        (signed(index) - index) % 0x1_0000_0000 == 0,
{
}

} // verus!
