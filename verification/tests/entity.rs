use bevy::ecs::entity::Entity;
use bevy::ecs::world::World;
use hyperion::entity::{EntityExt, InvalidEntityId};

#[test]
fn test_entity_id() {
    let mut world = World::new();
    let entity_id = world.spawn_empty().id();
    let minecraft_id = entity_id.minecraft_id();
    assert_eq!(
        Entity::from_minecraft_id(minecraft_id, &world).unwrap(),
        entity_id
    );
}

#[test]
fn entities_beyond_the_signed_range_get_negative_numbers() {
    assert_eq!(Entity::from_raw(7).minecraft_id(), 7);
    assert_eq!(Entity::from_raw(0x7fff_ffff).minecraft_id(), i32::MAX);
    assert_eq!(Entity::from_raw(0x8000_0000).minecraft_id(), i32::MIN);
    assert_eq!(Entity::from_raw(0xffff_fffe).minecraft_id(), -2);
    assert_eq!(Entity::from_raw(0xffff_fffe).id(), 0xffff_fffe);
}

#[test]
fn unknown_numbers_are_refused() {
    let world = World::new();
    assert_eq!(Entity::from_id(12, &world), Err(InvalidEntityId));
    assert_eq!(Entity::from_minecraft_id(-1, &world), Err(InvalidEntityId));
    assert_eq!(InvalidEntityId.message(), "minecraft id is invalid");
}

#[test]
fn every_spawned_entity_is_found_by_its_number() {
    let mut world = World::new();
    for _ in 0..5 {
        let entity = world.spawn_empty().id();
        assert_eq!(Entity::from_id(entity.id(), &world), Ok(entity));
        assert_eq!(
            Entity::from_minecraft_id(entity.minecraft_id(), &world).unwrap().id(),
            entity.id()
        );
    }
}

#[test]
fn an_index_that_is_used_again_names_the_new_entity() {
    let mut world = World::new();
    let first = world.spawn_empty().id();
    assert!(world.despawn(first));
    let freed = Entity::from_minecraft_id(first.minecraft_id(), &world).unwrap();
    assert_eq!(freed.id(), first.id());
    let second = world.spawn_empty().id();
    assert_eq!(second.id(), first.id());
    assert_ne!(second, first);
    assert_eq!(Entity::from_minecraft_id(first.minecraft_id(), &world), Ok(second));
}

#[test]
fn a_reserved_entity_is_found_once_it_is_reserved() {
    let world = World::new();
    assert_eq!(Entity::from_id(0, &world), Err(InvalidEntityId));
    let reserved = world.entities().reserve_entity();
    assert_eq!(Entity::from_id(reserved.id(), &world), Ok(reserved));
}
