use hyperion::actions::Outgoing;
use hyperion::block::BlockState;
use hyperion::blocks::Blocks;
use hyperion::chunk::{Column, ColumnData};
use hyperion::lotus::{
    bloom, find_ground, is_lotus_carpet, petal_color, step_lotus, step_lotus_with, LotusFootprint,
};
use hyperion::npc::{
    first_time, is_skyblock, spawn_animals, vec3_parts, wander, wander_step, Animal, Interaction, NpcTalk,
};
use hyperion::persist::EditStore;
use hyperion::pos::{I16Vec2, IVec3};
use hyperion::server::{
    adjusted_limits, endpoint_warning, map_source, persist_world_on_exit, send_chunk_positions, AppId,
    FileLimits, MapSource, SaveTimer, Scratch, ScratchBuffer,
};
use hyperion::session::ConnectionId;
use hyperion::skyblock::{island_spawn, starter_kit, void_respawn, ChestClaims, Item, Regens};
use hyperion::team::{initial_team, Team};
use valence_generated::block::BlockState as Table;

const STONE: BlockState = BlockState { raw: 1 };

fn ground_world() -> Blocks {
    let (store, _) = EditStore::open(String::new(), None);
    let mut blocks = Blocks::new(Some(store));
    let column = |x, z| {
        Column::new(I16Vec2::new(x, z), ColumnData::filled(BlockState::air()), Vec::new())
    };
    blocks.load_pending(vec![column(0, 0), column(-1, 0)]);
    for x in -16..16 {
        for z in 0..16 {
            blocks.set_block(IVec3::new(x, 63, z), STONE).unwrap();
        }
    }
    blocks.save_edits();
    blocks.clear_should_update();
    blocks
}

#[test]
fn carpets_are_those_of_the_block_table() {
    let petals = [
        Table::PINK_CARPET,
        Table::MAGENTA_CARPET,
        Table::RED_CARPET,
        Table::PURPLE_CARPET,
        Table::LIGHT_BLUE_CARPET,
        Table::CYAN_CARPET,
        Table::LIME_CARPET,
        Table::ORANGE_CARPET,
    ];
    for (i, petal) in petals.iter().enumerate() {
        assert_eq!(petal_color(i).raw, petal.to_raw());
        assert!(is_lotus_carpet(petal_color(i)));
    }
    assert!(is_lotus_carpet(BlockState { raw: Table::YELLOW_CARPET.to_raw() }));
    assert!(!is_lotus_carpet(BlockState { raw: Table::WHITE_CARPET.to_raw() }));
    assert!(!is_lotus_carpet(STONE));
}

#[test]
fn the_ground_is_found_beneath_the_feet() {
    let mut blocks = ground_world();
    assert_eq!(find_ground(&blocks, 4, 64, 4), Some(63));
    assert_eq!(find_ground(&blocks, 4, 79, 4), Some(63));
    assert_eq!(find_ground(&blocks, 4, 80, 4), None);
    assert_eq!(find_ground(&blocks, 400, 64, 4), None);
    blocks.set_block(IVec3::new(4, 64, 4), petal_color(0)).unwrap();
    assert_eq!(find_ground(&blocks, 4, 66, 4), Some(63));
    blocks.set_block(IVec3::new(4, -64, 4), STONE).unwrap();
    assert_eq!(find_ground(&blocks, 4, -60, 4), Some(-64));
    assert_eq!(find_ground(&blocks, 5, -60, 4), None);
    assert_eq!(find_ground(&blocks, 5, -300, 4), None);
    blocks.set_block(IVec3::new(4, 319, 4), STONE).unwrap();
    assert_eq!(find_ground(&blocks, 4, 330, 4), Some(319));
    assert_eq!(find_ground(&blocks, 4, 340, 4), None);
}

#[test]
fn over_the_void_the_pad_stays() {
    let mut blocks = ground_world();
    let mut pad = LotusFootprint::new();
    step_lotus_with(&mut blocks, &mut pad, 8, -55, 8, petal_color(0));
    assert_eq!(pad, LotusFootprint::new());
    assert_eq!(blocks.get_block(IVec3::new(8, -64, 8)), Some(BlockState::air()));

    step_lotus_with(&mut blocks, &mut pad, 4, 64, 4, petal_color(2));
    let laid = pad.clone();
    step_lotus_with(&mut blocks, &mut pad, 8, -55, 8, petal_color(0));
    step_lotus_with(&mut blocks, &mut pad, 8, -200, 8, petal_color(0));
    assert_eq!(pad, laid);
    assert_eq!(blocks.get_block(IVec3::new(4, 64, 4)), Some(BlockState { raw: 10591 }));
}

#[test]
fn a_lotus_follows_and_leaves_no_trace() {
    let mut blocks = ground_world();
    blocks.set_block(IVec3::new(5, 64, 5), STONE).unwrap();
    blocks.save_edits();
    let mut pad = LotusFootprint::new();
    step_lotus_with(&mut blocks, &mut pad, 4, 64, 4, petal_color(2));
    assert_eq!(pad.center, Some(IVec3::new(4, 64, 4)));
    assert_eq!(pad.restore.len(), 8);
    assert_eq!(blocks.get_block(IVec3::new(4, 64, 4)), Some(BlockState { raw: 10591 }));
    assert_eq!(blocks.get_block(IVec3::new(3, 64, 3)), Some(petal_color(2)));
    assert_eq!(blocks.get_block(IVec3::new(5, 64, 5)), Some(STONE));

    // Jumping keeps the pad where it is, in its colour.
    step_lotus_with(&mut blocks, &mut pad, 4, 66, 4, petal_color(3));
    assert_eq!(blocks.get_block(IVec3::new(3, 64, 3)), Some(petal_color(2)));
    // So does ground that is not loaded.
    step_lotus_with(&mut blocks, &mut pad, 400, 66, 4, petal_color(3));
    assert_eq!(pad.center, Some(IVec3::new(4, 64, 4)));

    step_lotus_with(&mut blocks, &mut pad, -1, 64, 8, petal_color(3));
    assert_eq!(blocks.get_block(IVec3::new(4, 64, 4)), Some(BlockState::air()));
    assert_eq!(blocks.get_block(IVec3::new(3, 64, 3)), Some(BlockState::air()));
    assert_eq!(blocks.get_block(IVec3::new(0, 64, 7)), Some(petal_color(3)));
    assert_eq!(pad.restore.len(), 9);
    assert!(blocks.save_edits().is_none());
}

#[test]
fn a_lotus_blooms_in_a_random_colour() {
    let mut blocks = ground_world();
    let mut pad = LotusFootprint::new();
    let mut seen = Vec::new();
    for i in 0..200 {
        step_lotus(&mut blocks, &mut pad, i % 8, 64, 8);
        let petal = blocks.get_block(IVec3::new(i % 8, 64, 7)).unwrap();
        assert!(is_lotus_carpet(petal) && petal.raw != 10591);
        if !seen.contains(&petal) {
            seen.push(petal);
        }
    }
    assert!(seen.len() > 1);
    let restore = bloom(&mut blocks, IVec3::new(0, 100, 8), petal_color(0));
    assert_eq!(restore.len(), 9);
    assert_eq!(restore[0], (IVec3::new(-1, 100, 7), BlockState::air()));
    assert_eq!(restore[1], (IVec3::new(0, 100, 7), BlockState::air()));
    assert_eq!(restore[3], (IVec3::new(-1, 100, 8), BlockState::air()));
}

#[test]
fn players_are_brought_back_from_the_void() {
    assert_eq!(void_respawn(-10), None);
    assert_eq!(void_respawn(-11), Some("§c你掉进了虚空,已送回小岛"));
    assert_eq!(island_spawn(), (17, 128, 17));
}

#[test]
fn the_chest_gives_once() {
    let mut claims = ChestClaims::new();
    let chest = IVec3::new(8, 64, 8);
    assert!(claims.open_starter_chest(1, true, IVec3::new(8, 64, 9)).is_none());
    assert!(claims.open_starter_chest(1, false, chest).is_none());
    let bonus = claims.open_starter_chest(1, true, chest).unwrap();
    assert_eq!(
        bonus.items,
        vec![(Item::OakLog, 16), (Item::Bread, 16), (Item::IronIngot, 3), (Item::OakSapling, 4)]
    );
    assert_eq!(bonus.text, "§a你打开了开局宝箱,获得额外物资!");
    assert!(claims.open_starter_chest(1, true, chest).is_none());
    assert!(claims.open_starter_chest(2, true, chest).is_some());
    assert_eq!(
        starter_kit(),
        vec![
            (Item::WoodenPickaxe, 1),
            (Item::WoodenAxe, 1),
            (Item::OakSapling, 4),
            (Item::Dirt, 16),
            (Item::Bread, 8)
        ]
    );
}

#[test]
fn the_generator_grows_back_in_time() {
    let mut blocks = ground_world();
    let generator = IVec3::new(12, 64, 4);
    let mut regens = Regens::new();
    regens.on_block_destroyed(100, IVec3::new(12, 64, 5));
    assert_eq!(regens.pending, vec![]);
    regens.on_block_destroyed(100, generator);
    regens.on_block_destroyed(110, generator);
    assert_eq!(regens.run_regens(&mut blocks, 129), vec![]);
    assert_eq!(regens.pending.len(), 2);
    assert_eq!(
        regens.run_regens(&mut blocks, 130),
        vec![Outgoing::BlockUpdate {
            chunk: I16Vec2::new(0, 0),
            pos: generator,
            state: BlockState::cobblestone()
        }]
    );
    assert_eq!(blocks.get_block(generator), Some(BlockState::cobblestone()));
    assert_eq!(regens.pending, vec![(generator, 140)]);
    assert_eq!(blocks.save_edits().is_some(), true);

    // One that is there already, but only for now, is kept all the same.
    let mut again = ground_world();
    again.set_block_transient(generator, BlockState::cobblestone()).unwrap();
    assert!(again.save_edits().is_none());
    assert_eq!(regens.clone().run_regens(&mut again, 140).len(), 1);
    assert!(again.save_edits().is_some());

    let mut empty = Blocks::empty();
    assert_eq!(regens.run_regens(&mut empty, 1000), vec![]);
    assert_eq!(regens.pending, vec![]);
}

#[test]
fn the_guide_pauses_between_talks() {
    let npcs = vec![5, 9];
    let player = Some((ConnectionId { raw: 3 }, [1u32, 2, 3]));
    let click = |target, player| Interaction { interact: true, target, player };
    let mut talk = NpcTalk::new();
    assert!(talk.npc_interactions(click(9, player), &npcs, 39).is_none());
    let req = talk.npc_interactions(click(9, player), &npcs, 40).unwrap();
    assert_eq!(req.connection, ConnectionId { raw: 3 });
    assert_eq!(req.pos, Some([1, 2, 3]));
    assert!(req.prompt.starts_with("[You are a friendly village-guide NPC"));
    assert!(talk.npc_interactions(click(5, player), &npcs, 79).is_none());
    assert!(talk.npc_interactions(click(6, player), &npcs, 200).is_none());
    let poke = Interaction { interact: false, target: 5, player };
    assert!(talk.npc_interactions(poke, &npcs, 200).is_none());
    assert!(talk.npc_interactions(click(5, None), &npcs, 80).is_none());
    assert_eq!(talk.last_tick, 80);
    assert!(talk.npc_interactions(click(5, player), &npcs, 119).is_none());
    assert!(talk.npc_interactions(click(5, player), &npcs, 120).is_some());
}

#[test]
fn animals_live_around_the_village() {
    assert_eq!(
        spawn_animals(),
        vec![
            (Animal::Cow, 8, 10),
            (Animal::Pig, -12, 9),
            (Animal::Sheep, 14, -8),
            (Animal::Chicken, -10, -12),
            (Animal::Cow, 20, 2),
            (Animal::Pig, -22, 4),
            (Animal::Sheep, 4, -20),
            (Animal::Chicken, -4, 18),
        ]
    );
    assert_eq!(wander_step(0, 0), (true, 19));
    assert_eq!(wander_step(0, 59), (true, 78));
    assert_eq!(wander_step(7, 0), (false, 6));
    assert_eq!(wander(1), (false, 0));
    for _ in 0..200 {
        let (turned, left) = wander(0);
        assert!(turned && (19..79).contains(&left));
    }
    let mut done = false;
    assert!(first_time(&mut done));
    assert!(!first_time(&mut done));
}

#[test]
fn settings_are_read() {
    assert!(is_skyblock(Some("skyblock")));
    assert!(!is_skyblock(Some("bedwars")));
    assert!(!is_skyblock(None));
    let parts = |a: &str, b: &str, c: &str| Some((a.to_string(), b.to_string(), c.to_string()));
    assert_eq!(vec3_parts("1.5, 64 ,-3"), parts("1.5", "64", "-3"));
    assert_eq!(vec3_parts(",,"), parts("", "", ""));
    assert_eq!(vec3_parts("1,2"), None);
    assert_eq!(vec3_parts("1,2,3,4"), None);
    assert_eq!(vec3_parts(""), None);
}

#[test]
fn teams_have_names_and_colours() {
    assert_eq!(Team::LightBlue.name(), "Light Blue");
    assert_eq!(Team::Yellow.name(), "Yellow");
    assert_eq!(Team::Red.rgb(), (0xa1, 0x27, 0x22));
    assert_eq!(Team::Black.rgb(), (0x14, 0x15, 0x19));
    assert_eq!(Team::LightGray.rgb(), (0x8e, 0x8e, 0x86));
    assert_eq!(initial_team(), Team::Red);
    let teams = [
        Team::Black,
        Team::Blue,
        Team::Brown,
        Team::Cyan,
        Team::Gray,
        Team::Green,
        Team::LightBlue,
        Team::LightGray,
        Team::Lime,
        Team::Magenta,
        Team::Orange,
        Team::Pink,
        Team::Purple,
        Team::Red,
        Team::White,
        Team::Yellow,
    ];
    for a in teams {
        for b in teams {
            assert_eq!(a.rgb() == b.rgb(), a == b);
            assert_eq!(a.name() == b.name(), a == b);
        }
    }
}

#[test]
fn saves_are_regular() {
    let mut timer = SaveTimer::new();
    let mut saves = Vec::new();
    for tick in 1..=1800 {
        if timer.persist_world_edits() {
            saves.push(tick);
        }
    }
    assert_eq!(saves, vec![600, 1200, 1800]);
    assert!(persist_world_on_exit(1));
    assert!(!persist_world_on_exit(0));
}

#[test]
fn the_server_is_set_up() {
    let limits = FileLimits { soft: 256, hard: 10_000 };
    assert_eq!(
        adjusted_limits(limits, 32_768),
        (FileLimits { soft: 10_000, hard: 10_000 }, true)
    );
    assert!(!adjusted_limits(limits, 10_000).1);
    assert!(endpoint_warning(25565).unwrap().starts_with("You are setting the port"));
    assert_eq!(endpoint_warning(35565), None);
    assert_eq!(map_source(Some("/maps".to_string())), MapSource::Local("/maps".to_string()));
    assert_eq!(
        map_source(None),
        MapSource::Download("https://github.com/andrewgazelka/maps/raw/main/GenMap.tar.gz")
    );
    let id = AppId::generic();
    assert_eq!((id.qualifier.as_str(), id.organization.as_str(), id.application.as_str()), ("github", "hyperion-mc", "generic"));
    let mut scratch = Scratch::new(4);
    assert_eq!(scratch.obtain(), [0, 0, 0, 0]);
    scratch.obtain()[2] = 7;
    assert_eq!(scratch.obtain(), [0, 0, 7, 0]);
}

#[test]
fn the_proxy_is_told_where_players_are() {
    let players = vec![
        (ConnectionId { raw: 1 }, I16Vec2::new(0, -1)),
        (ConnectionId { raw: 9 }, I16Vec2::new(4, 4)),
    ];
    let update = send_chunk_positions(&players);
    assert_eq!(update.stream, vec![ConnectionId { raw: 1 }, ConnectionId { raw: 9 }]);
    assert_eq!(update.positions, vec![I16Vec2::new(0, -1), I16Vec2::new(4, 4)]);
}
