use hyperion::block::{block_named, is_structural, is_structural_kind, BlockState};
use hyperion::blocks::{Blocks, EntityAndSequence, GetChunk, TrySetBlockDeltaError};
use hyperion::chunk::{Column, ColumnData, CHUNK_HEIGHT_SPAN};
use hyperion::persist::EditStore;
use valence_generated::block::{BlockKind, BlockState as Table};
use hyperion::pos::{chunk_of, exact_chunk_of, I16Vec2, IVec3};

const STONE: BlockState = BlockState { raw: 1 };
const DIRT: BlockState = BlockState { raw: 10 };

fn air_column(x: i16, z: i16) -> Column {
    Column::new(I16Vec2::new(x, z), ColumnData::filled(BlockState::air()), vec![x as u8, z as u8])
}

fn world_with(chunks: &[(i16, i16)]) -> Blocks {
    let mut blocks = Blocks::empty();
    let columns = chunks.iter().map(|&(x, z)| air_column(x, z)).collect();
    assert_eq!(blocks.load_pending(columns), vec![]);
    blocks
}

#[test]
fn states_are_those_of_the_block_table() {
    assert_eq!(BlockState::air().to_raw(), Table::AIR.to_raw());
    assert_eq!(BlockState::void_air().to_raw(), Table::VOID_AIR.to_raw());
    assert_eq!(BlockState::cobblestone().to_raw(), Table::COBBLESTONE.to_raw());
    assert_eq!(hyperion::block::YELLOW_CARPET_STATE, Table::YELLOW_CARPET.to_raw());
    assert_eq!(BlockState::from_raw(24134), Some(BlockState { raw: 24134 }));
    assert_eq!(BlockState::from_raw(24135), None);
    assert_eq!(BlockState::from_raw(u16::MAX), None);
    for raw in 0..=u16::MAX {
        assert_eq!(BlockState::from_raw(raw).is_some(), Table::from_raw(raw).is_some());
    }
}

#[test]
fn blocks_are_found_by_name() {
    assert_eq!(block_named("stone"), Some(STONE));
    assert_eq!(block_named("dirt"), Some(DIRT));
    assert_eq!(block_named("oak_planks").unwrap().raw, Table::OAK_PLANKS.to_raw());
    assert_eq!(block_named("glowstone").unwrap().raw, Table::GLOWSTONE.to_raw());
    assert_eq!(block_named("no_such_block"), None);
    assert_eq!(block_named(""), None);
}

#[test]
fn only_buildings_and_trees_can_be_destroyed() {
    for raw in 0..=24134 {
        let kind = Table::from_raw(raw).unwrap().to_kind();
        let terrain = matches!(
            kind,
            BlockKind::Air
                | BlockKind::CaveAir
                | BlockKind::VoidAir
                | BlockKind::Bedrock
                | BlockKind::GrassBlock
                | BlockKind::Dirt
                | BlockKind::Water
                | BlockKind::Lava
                | BlockKind::Sand
                | BlockKind::Gravel
                | BlockKind::Stone
        );
        assert_eq!(is_structural(BlockState { raw }), !terrain, "{raw}");
        assert_eq!(is_structural_kind(kind.to_raw()), !terrain, "{raw}");
    }
}

#[test]
fn chunks_are_found_by_flooring() {
    assert_eq!(chunk_of(IVec3::new(0, 0, 0)), I16Vec2::new(0, 0));
    assert_eq!(chunk_of(IVec3::new(15, 0, 16)), I16Vec2::new(0, 1));
    assert_eq!(chunk_of(IVec3::new(-1, 0, -16)), I16Vec2::new(-1, -1));
    assert_eq!(chunk_of(IVec3::new(-17, 0, 0)), I16Vec2::new(-2, 0));
    assert_eq!(chunk_of(IVec3::new(1_048_576, 0, i32::MIN)), I16Vec2::new(0, 0));
    assert_eq!(exact_chunk_of(IVec3::new(524_287, 0, -524_288)), Some(I16Vec2::new(32767, -32768)));
    assert_eq!(exact_chunk_of(IVec3::new(524_288, 0, 0)), None);
    assert_eq!(exact_chunk_of(IVec3::new(0, 0, -524_289)), None);
}

#[test]
fn a_block_that_was_set_is_read_back() {
    let mut blocks = world_with(&[(0, 0), (-1, -1)]);
    for pos in [IVec3::new(3, 64, 9), IVec3::new(-1, -64, -16), IVec3::new(15, 319, 15)] {
        assert_eq!(blocks.get_block(pos), Some(BlockState::air()));
        assert_eq!(blocks.set_block(pos, STONE), Ok(BlockState::air()));
        assert_eq!(blocks.get_block(pos), Some(STONE));
        assert_eq!(blocks.set_block_transient(pos, DIRT), Ok(STONE));
        assert_eq!(blocks.get_block(pos), Some(DIRT));
    }
    assert_eq!(blocks.get_block(IVec3::new(3, 65, 9)), Some(BlockState::air()));
    assert_eq!(blocks.par_scan_for(DIRT).len(), 3);
}

#[test]
fn setting_a_block_back_undoes_the_change() {
    let mut blocks = world_with(&[(0, 0)]);
    let pos = IVec3::new(3, 64, 9);
    assert_eq!(blocks.set_block(pos, STONE), Ok(BlockState::air()));
    let before = blocks.get_blocks(IVec3::new(0, -64, 0), IVec3::new(15, 319, 15));
    let old_state = blocks.set_block(pos, DIRT).unwrap();
    assert_eq!(old_state, STONE);
    assert_eq!(blocks.set_block(pos, old_state), Ok(DIRT));
    assert_eq!(blocks.get_blocks(IVec3::new(0, -64, 0), IVec3::new(15, 319, 15)), before);
}

#[test]
fn blocks_outside_the_world_are_void() {
    let mut blocks = world_with(&[(0, 0)]);
    assert_eq!(blocks.get_block(IVec3::new(0, -65, 0)), Some(BlockState::void_air()));
    assert_eq!(blocks.get_block(IVec3::new(0, 320, 0)), Some(BlockState::void_air()));
    assert_eq!(blocks.get_block(IVec3::new(0, 384, 0)), Some(BlockState::void_air()));
    assert_eq!(blocks.get_block(IVec3::new(100, 383, 0)), None);
    assert_eq!(blocks.get_block(IVec3::new(100, 384, 0)), Some(BlockState::void_air()));
    assert_eq!(blocks.get_block(IVec3::new(100, 0, 0)), None);
    assert_eq!(
        blocks.set_block(IVec3::new(0, -65, 0), STONE),
        Err(TrySetBlockDeltaError::OutOfBounds)
    );
    assert_eq!(
        blocks.set_block(IVec3::new(100, -65, 0), STONE),
        Err(TrySetBlockDeltaError::OutOfBounds)
    );
    assert_eq!(
        blocks.set_block(IVec3::new(0, 320, 0), STONE),
        Err(TrySetBlockDeltaError::OutOfBounds)
    );
    assert_eq!(
        blocks.set_block(IVec3::new(100, 320, 0), STONE),
        Err(TrySetBlockDeltaError::ChunkNotLoaded)
    );
    assert_eq!(
        blocks.set_block_transient(IVec3::new(16, 5, 0), STONE),
        Err(TrySetBlockDeltaError::ChunkNotLoaded)
    );
    assert_eq!(TrySetBlockDeltaError::OutOfBounds.message(), "OutOfBounds");
    assert_eq!(TrySetBlockDeltaError::ChunkNotLoaded.message(), "ChunkNotLoaded");
    assert_eq!(blocks.for_each_to_update().len(), 0);
}

#[test]
fn far_positions_wrap_around() {
    let mut blocks = world_with(&[(0, 0)]);
    assert_eq!(blocks.set_block(IVec3::new(1_048_576 + 2, 10, 3), STONE), Ok(BlockState::air()));
    assert_eq!(blocks.get_block(IVec3::new(2, 10, 3)), Some(STONE));
}

#[test]
fn changed_chunks_are_listed_by_index() {
    let mut blocks = world_with(&[(5, 5), (0, 0), (1, 0)]);
    blocks.set_block(IVec3::new(17, 0, 0), STONE).unwrap();
    blocks.set_block(IVec3::new(81, 0, 80), STONE).unwrap();
    blocks.set_block(IVec3::new(0, 0, 0), BlockState::air()).unwrap();
    let changed: Vec<I16Vec2> = blocks.for_each_to_update().iter().map(|c| c.position).collect();
    assert_eq!(changed, vec![I16Vec2::new(5, 5), I16Vec2::new(1, 0)]);
    let indices = blocks.for_each_to_update_mut();
    assert_eq!(indices, vec![0, 2]);
    blocks.column_to_update(2).base_packet_bytes = vec![9];
    assert_eq!(blocks.get_cached(I16Vec2::new(1, 0)), Some(vec![9]));
    blocks.clear_should_update();
    assert_eq!(blocks.for_each_to_update().len(), 0);
    assert_eq!(blocks.get_block(IVec3::new(17, 0, 0)), Some(STONE));
}

#[test]
fn chunks_are_cached() {
    let mut blocks = world_with(&[(3, 4)]);
    assert_eq!(blocks.get_cached(I16Vec2::new(3, 4)), Some(vec![3, 4]));
    assert_eq!(blocks.get_cached(I16Vec2::new(4, 3)), None);
    assert!(matches!(blocks.get_cached_or_load(I16Vec2::new(4, 3)), GetChunk::Loading));
    match blocks.get_cached_or_load(I16Vec2::new(3, 4)) {
        GetChunk::Loaded(column) => assert_eq!(column.position, I16Vec2::new(3, 4)),
        GetChunk::Loading => unreachable!(),
    }
    assert!(blocks.get_loaded_chunk(I16Vec2::new(0, 0)).is_none());
    assert_eq!(blocks.get_loaded_chunk(I16Vec2::new(3, 4)).unwrap().data.height(), CHUNK_HEIGHT_SPAN);
    blocks.get_loaded_chunk_mut(I16Vec2::new(3, 4)).unwrap().base_packet_bytes.push(7);
    assert_eq!(blocks.get_cached(I16Vec2::new(3, 4)), Some(vec![3, 4, 7]));
    assert!(blocks.get_loaded_chunk_mut(I16Vec2::new(9, 9)).is_none());
    assert_eq!(blocks.cache_mut().len(), 1);
}

#[test]
fn a_chunk_that_loads_again_replaces_the_old_one_in_place() {
    let mut blocks = world_with(&[(0, 0), (1, 0)]);
    blocks.set_block(IVec3::new(0, 0, 0), STONE).unwrap();
    blocks.load_pending(vec![air_column(2, 0), air_column(0, 0)]);
    assert_eq!(blocks.get_block(IVec3::new(0, 0, 0)), Some(BlockState::air()));
    let keys: Vec<(i16, i16)> = blocks.cache_mut().keys().copied().collect();
    assert_eq!(keys, vec![(0, 0), (1, 0), (2, 0)]);
}

#[test]
fn regions_are_listed_chunk_by_chunk() {
    let mut blocks = world_with(&[(0, 0), (-1, 0)]);
    blocks.set_block(IVec3::new(-1, 5, 0), STONE).unwrap();
    blocks.set_block(IVec3::new(1, 6, 1), DIRT).unwrap();
    let listed = blocks.get_blocks(IVec3::new(-1, 5, 0), IVec3::new(1, 6, 1));
    let air = BlockState::air();
    let expected = vec![
        (IVec3::new(-1, 5, 0), STONE),
        (IVec3::new(-1, 6, 0), air),
        (IVec3::new(-1, 5, 1), air),
        (IVec3::new(-1, 6, 1), air),
        (IVec3::new(0, 5, 0), air),
        (IVec3::new(0, 6, 0), air),
        (IVec3::new(0, 5, 1), air),
        (IVec3::new(0, 6, 1), air),
        (IVec3::new(1, 5, 0), air),
        (IVec3::new(1, 6, 0), air),
        (IVec3::new(1, 5, 1), air),
        (IVec3::new(1, 6, 1), DIRT),
    ];
    assert_eq!(listed, expected);
}

#[test]
fn regions_leave_out_what_is_not_loaded() {
    let blocks = world_with(&[(0, 0)]);
    assert_eq!(blocks.get_blocks(IVec3::new(16, 0, 0), IVec3::new(20, 3, 3)), vec![]);
    assert_eq!(blocks.get_blocks(IVec3::new(15, 0, 0), IVec3::new(16, 0, 0)).len(), 1);
    assert_eq!(blocks.get_blocks(IVec3::new(0, -100, 0), IVec3::new(0, 400, 0)).len(), 384);
    assert_eq!(blocks.get_blocks(IVec3::new(0, -80, 0), IVec3::new(0, -70, 0)), vec![]);
    assert_eq!(blocks.get_blocks(IVec3::new(2, 0, 0), IVec3::new(1, 0, 0)), vec![]);
    assert_eq!(
        blocks.get_blocks(IVec3::new(1_048_576, 0, 0), IVec3::new(1_048_580, 3, 3)),
        vec![]
    );
}

#[test]
fn blocks_in_a_state_are_found() {
    let mut blocks = world_with(&[(0, 0), (-2, 7)]);
    let places = [IVec3::new(0, -64, 0), IVec3::new(15, 319, 15), IVec3::new(-20, 70, 115)];
    for pos in places {
        blocks.set_block(pos, STONE).unwrap();
    }
    let found = blocks.par_scan_for(STONE);
    assert_eq!(found.len(), 3);
    for pos in places {
        assert!(found.contains(&pos));
    }
    assert_eq!(blocks.par_scan_for(DIRT), vec![]);
    assert_eq!(blocks.par_scan_for(BlockState::air()).len(), 2 * 98_304 - 3);
}

#[test]
fn edits_survive_a_restart() {
    let (store, loaded) = EditStore::open("edits".to_string(), None);
    assert_eq!(loaded, 0);
    let mut blocks = Blocks::new(Some(store));
    assert_eq!(blocks.load_pending(vec![air_column(0, 0), air_column(-1, 0)]), vec![]);
    assert!(blocks.save_edits().is_none());
    blocks.set_block(IVec3::new(4, 70, 4), STONE).unwrap();
    blocks.set_block(IVec3::new(-3, 0, 2), STONE).unwrap();
    blocks.set_block(IVec3::new(-3, 0, 2), DIRT).unwrap();
    blocks.set_block_transient(IVec3::new(5, 70, 4), STONE).unwrap();
    let (dir, snapshot) = blocks.save_edits().unwrap();
    assert_eq!(dir, "edits");
    assert!(blocks.save_edits().is_none());

    let (store, loaded) = EditStore::open(dir, Some(snapshot));
    assert_eq!(loaded, 2);
    let mut blocks = Blocks::new(Some(store));
    let encode = blocks.load_pending(vec![air_column(1, 1), air_column(-1, 0), air_column(0, 0)]);
    assert_eq!(encode, vec![I16Vec2::new(-1, 0), I16Vec2::new(0, 0)]);
    assert_eq!(blocks.get_block(IVec3::new(4, 70, 4)), Some(STONE));
    assert_eq!(blocks.get_block(IVec3::new(-3, 0, 2)), Some(DIRT));
    assert_eq!(blocks.get_block(IVec3::new(5, 70, 4)), Some(BlockState::air()));
    assert!(blocks.save_edits().is_none());
}

#[test]
fn kept_edits_stay_in_step_with_what_loads() {
    let (store, _) = EditStore::open("edits".to_string(), None);
    let mut blocks = Blocks::new(Some(store));
    blocks.load_pending(vec![air_column(0, 0)]);
    let (from, to) = (IVec3::new(0, -64, 0), IVec3::new(15, 319, 15));
    blocks.set_block(IVec3::new(1, 2, 3), STONE).unwrap();
    blocks.set_block(IVec3::new(1, 2, 3), STONE).unwrap();
    blocks.set_block(IVec3::new(4, 2, 3), BlockState::air()).unwrap();
    blocks.set_block(IVec3::new(5, 2, 3), DIRT).unwrap();
    blocks.set_block(IVec3::new(5, 2, 3), BlockState::air()).unwrap();
    let here = blocks.get_blocks(from, to);

    let (dir, snapshot) = blocks.save_edits().unwrap();
    let (store, loaded) = EditStore::open(dir, Some(snapshot));
    assert_eq!(loaded, 3);
    let mut blocks = Blocks::new(Some(store));
    blocks.load_pending(vec![air_column(0, 0)]);
    assert_eq!(blocks.get_blocks(from, to), here);
    assert!(blocks.save_edits().is_none());
}

#[test]
fn a_transient_block_that_is_set_again_is_kept() {
    let (store, _) = EditStore::open("edits".to_string(), None);
    let mut blocks = Blocks::new(Some(store));
    blocks.load_pending(vec![air_column(0, 0)]);
    let pos = IVec3::new(7, 2, 3);
    assert_eq!(blocks.set_block_transient(pos, STONE), Ok(BlockState::air()));
    assert!(blocks.save_edits().is_none());
    assert_eq!(blocks.set_block(pos, STONE), Ok(STONE));
    let (dir, snapshot) = blocks.save_edits().unwrap();
    let (store, loaded) = EditStore::open(dir, Some(snapshot));
    assert_eq!(loaded, 1);
    let mut blocks = Blocks::new(Some(store));
    blocks.load_pending(vec![air_column(0, 0)]);
    assert_eq!(blocks.get_block(pos), Some(STONE));
}

#[test]
fn a_save_that_failed_is_tried_again() {
    let (store, _) = EditStore::open("edits".to_string(), None);
    let mut blocks = Blocks::new(Some(store));
    blocks.load_pending(vec![air_column(0, 0)]);
    blocks.set_block(IVec3::new(1, 2, 3), STONE).unwrap();
    let first = blocks.save_edits().unwrap();
    assert!(blocks.save_edits().is_none());
    blocks.save_failed();
    assert_eq!(blocks.save_edits(), Some(first));
    assert!(blocks.save_edits().is_none());

    let mut unkept = world_with(&[(0, 0)]);
    unkept.save_failed();
    assert!(unkept.save_edits().is_none());
}

#[test]
fn edits_outside_the_columns_are_passed_over() {
    let (mut store, _) = EditStore::open(String::new(), None);
    store.record(IVec3::new(2, -65, 2), STONE);
    store.record(IVec3::new(2, 320, 2), STONE);
    store.record(IVec3::new(1_048_578, 8, 2), STONE);
    store.record(IVec3::new(2, i32::MAX, 2), STONE);
    let mut blocks = Blocks::new(Some(store));
    assert_eq!(blocks.load_pending(vec![air_column(0, 0)]), vec![I16Vec2::new(0, 0)]);
    assert_eq!(blocks.par_scan_for(STONE), vec![]);
}

#[test]
fn a_world_without_a_store_saves_nothing() {
    let mut blocks = world_with(&[(0, 0)]);
    blocks.set_block(IVec3::new(0, 0, 0), STONE).unwrap();
    assert!(blocks.save_edits().is_none());
}

#[test]
fn confirmations_are_handed_out_once() {
    let mut blocks = world_with(&[]);
    let entity = bevy::ecs::entity::Entity::from_raw(4);
    blocks.to_confirm.push(EntityAndSequence::new(entity, 17));
    let taken = hyperion::server::take_confirmations(&mut blocks);
    assert_eq!(taken.len(), 1);
    assert_eq!(taken[0].sequence, 17);
    assert_eq!(taken[0].entity, entity);
    assert_eq!(hyperion::server::take_confirmations(&mut blocks).len(), 0);
}

#[test]
fn positions_name_blocks() {
    let mut blocks = world_with(&[(0, 0)]);
    let mut raw = 1;
    for x in 0..16 {
        for z in 0..16 {
            for y in [-64, 0, 319] {
                blocks.set_block(IVec3::new(x, y, z), BlockState { raw }).unwrap();
                raw += 1;
            }
        }
    }
    let mut expected = 1;
    for x in 0..16 {
        for z in 0..16 {
            for y in [-64, 0, 319] {
                assert_eq!(blocks.get_block(IVec3::new(x, y, z)), Some(BlockState { raw: expected }));
                expected += 1;
            }
        }
    }
}
