use building::block::{BlockKind, BlockState, Prop, PropVal, AIR_ID, GRASS_BLOCK_ID, KIND_COUNT, MAX_STATE_ID};
use building::bootstrap::bootstrap;
use building::grid::{BlockPos, World};
use building::handlers::{
    dig_creative, dig_survival, facing_from_yaw, neighbor_pos, on_client_added, place_block,
    placed_state, sole_instance, toggle_mode, vertical_from_face, BlockFace, UseItemOnBlock,
};
use building::session::{ClientSession, GameMode, Inventory, ItemStack, Sessions};
use building::tick::{run_tick, Event};
use valence::block::{BlockKind as VKind, BlockState as VState, PropName, PropValue};

fn pos(x: i32, y: i32, z: i32) -> BlockPos {
    BlockPos { x, y, z }
}

fn kind_index(k: VKind) -> u16 {
    VKind::ALL.iter().position(|&a| a == k).unwrap() as u16
}

fn session(id: u64, mode: GameMode, yaw: i32, slot: Option<ItemStack>) -> ClientSession {
    let mut slots = vec![None; 9];
    slots[0] = slot;
    ClientSession {
        id,
        position: pos(0, 65, 0),
        yaw,
        mode,
        held_slot: 0,
        inventory: Inventory { slots },
        instance: None,
        messages: Vec::new(),
    }
}

fn stairs(count: u8) -> ItemStack {
    ItemStack { item: 1, count, block: Some(BlockKind { id: kind_index(VKind::OakStairs) }) }
}

fn raw(s: VState) -> u16 {
    s.to_raw()
}

#[test]
fn table_constants_match_valence() {
    assert_eq!(AIR_ID, VState::AIR.to_raw());
    assert_eq!(GRASS_BLOCK_ID, VState::GRASS_BLOCK.to_raw());
    assert_eq!(MAX_STATE_ID, VState::max_raw());
    assert_eq!(KIND_COUNT as usize, VKind::ALL.len());
}

#[test]
fn block_state_lookups() {
    let stair = BlockKind { id: kind_index(VKind::OakStairs) }.to_state();
    assert_eq!(stair.raw, raw(VState::OAK_STAIRS));
    assert!(stair.has(Prop::Facing));
    assert!(stair.has(Prop::Half));
    assert!(!stair.has(Prop::Type));
    let turned = stair.set(Prop::Facing, PropVal::East);
    assert_ne!(turned, stair);
    assert_eq!(turned.raw, raw(VState::OAK_STAIRS.set(PropName::Facing, PropValue::East)));
    assert_eq!(stair.set(Prop::Type, PropVal::Top), stair);
    assert!(BlockState::air().is_replaceable());
    assert!(BlockState { raw: raw(VState::WATER) }.is_replaceable());
    assert!(!BlockState::grass_block().is_replaceable());
    assert_eq!(BlockState::from_raw(MAX_STATE_ID + 1), None);
    assert_eq!(BlockState::from_raw(9), Some(BlockState::grass_block()));
}

#[test]
fn grid_get_and_set() {
    let mut w = World::new();
    assert_eq!(w.get_block(pos(0, 0, 0)), None);
    w.insert_chunk(-1, 0);
    assert_eq!(w.get_block(pos(-1, 0, 15)), Some(BlockState::air()));
    assert_eq!(w.get_block(pos(0, 0, 0)), None);
    assert_eq!(w.get_block(pos(-1, 319, 0)), Some(BlockState::air()));
    assert_eq!(w.get_block(pos(-1, 320, 0)), None);
    assert_eq!(w.get_block(pos(-1, -65, 0)), None);
    w.set_block(pos(-16, -64, 15), BlockState::grass_block());
    assert_eq!(w.get_block(pos(-16, -64, 15)), Some(BlockState::grass_block()));
    assert_eq!(w.get_block(pos(-15, -64, 15)), Some(BlockState::air()));
    w.insert_chunk(-1, 0);
    assert_eq!(w.get_block(pos(-16, -64, 15)), Some(BlockState::air()));
}

#[test]
fn bootstrap_layout() {
    let w = bootstrap(5, 25, 64);
    assert_eq!(w.get_block(pos(0, 64, 0)), Some(BlockState::grass_block()));
    assert_eq!(w.get_block(pos(-25, 64, -25)), Some(BlockState::grass_block()));
    assert_eq!(w.get_block(pos(24, 64, 24)), Some(BlockState::grass_block()));
    assert_eq!(w.get_block(pos(25, 64, 0)), Some(BlockState::air()));
    assert_eq!(w.get_block(pos(0, 64, -26)), Some(BlockState::air()));
    assert_eq!(w.get_block(pos(0, 65, 0)), Some(BlockState::air()));
    assert_eq!(w.get_block(pos(0, 63, 0)), Some(BlockState::air()));
    assert_eq!(w.get_block(pos(-80, 0, 79)), Some(BlockState::air()));
    assert_eq!(w.get_block(pos(80, 0, 0)), None);
    assert_eq!(w.get_block(pos(0, 0, -81)), None);
}

#[test]
fn bootstrap_is_deterministic() {
    let a = bootstrap(1, 10, 0);
    let b = bootstrap(1, 10, 0);
    for x in -16..16 {
        for z in -16..16 {
            for y in -1..2 {
                assert_eq!(a.get_block(pos(x, y, z)), b.get_block(pos(x, y, z)));
            }
            let ground = -10 <= x && x < 10 && -10 <= z && z < 10;
            let expect = if ground { BlockState::grass_block() } else { BlockState::air() };
            assert_eq!(a.get_block(pos(x, 0, z)), Some(expect));
        }
    }
}

#[test]
fn toggle_two_cycle() {
    assert_eq!(toggle_mode(GameMode::Survival), GameMode::Creative);
    assert_eq!(toggle_mode(GameMode::Creative), GameMode::Survival);
    assert_eq!(toggle_mode(toggle_mode(GameMode::Survival)), GameMode::Survival);
    assert_eq!(toggle_mode(toggle_mode(GameMode::Creative)), GameMode::Creative);
    assert_eq!(toggle_mode(GameMode::Adventure), GameMode::Creative);
    assert_eq!(toggle_mode(GameMode::Spectator), GameMode::Creative);
}

#[test]
fn sneaking_toggles_known_session_only() {
    let mut s = Sessions { clients: vec![session(1, GameMode::Survival, 0, None), session(2, GameMode::Spectator, 0, None)] };
    s.on_start_sneaking(2);
    assert_eq!(s.clients[0].mode, GameMode::Survival);
    assert_eq!(s.clients[1].mode, GameMode::Creative);
    s.on_start_sneaking(1);
    s.on_start_sneaking(7);
    assert_eq!(s.clients[0].mode, GameMode::Creative);
    assert_eq!(s.clients[1].mode, GameMode::Creative);
}

#[test]
fn sessions_find_add_remove() {
    let mut s = Sessions { clients: Vec::new() };
    s.add(session(4, GameMode::Creative, 0, None));
    s.add(session(9, GameMode::Creative, 0, None));
    assert_eq!(s.find(9), Some(1));
    assert_eq!(s.find(3), None);
    s.remove(4);
    assert_eq!(s.find(9), Some(0));
    s.remove(4);
    assert_eq!(s.clients.len(), 1);
}

#[test]
fn client_added_setup() {
    let mut c = session(3, GameMode::Survival, 0, None);
    on_client_added(&mut c, 11, 64);
    assert_eq!(c.position, pos(0, 65, 0));
    assert_eq!(c.mode, GameMode::Creative);
    assert_eq!(c.instance, Some(11));
    assert_eq!(c.messages, vec!["Welcome to Valence! Build something cool.".to_string()]);
    assert_eq!(sole_instance(&vec![11]), Some(11));
    assert_eq!(sole_instance(&vec![]), None);
    assert_eq!(sole_instance(&vec![1, 2]), None);
}

#[test]
fn facing_boundaries() {
    assert_eq!(facing_from_yaw(0), PropVal::South);
    assert_eq!(facing_from_yaw(449), PropVal::South);
    assert_eq!(facing_from_yaw(450), PropVal::West);
    assert_eq!(facing_from_yaw(1349), PropVal::West);
    assert_eq!(facing_from_yaw(1350), PropVal::North);
    assert_eq!(facing_from_yaw(2249), PropVal::North);
    assert_eq!(facing_from_yaw(2250), PropVal::East);
    assert_eq!(facing_from_yaw(3149), PropVal::East);
    assert_eq!(facing_from_yaw(3150), PropVal::South);
    assert_eq!(facing_from_yaw(3590), PropVal::South);
}

#[test]
fn facing_wraps() {
    assert_eq!(facing_from_yaw(3600 + 450), PropVal::West);
    assert_eq!(facing_from_yaw(-900), PropVal::East);
    assert_eq!(facing_from_yaw(-3600), PropVal::South);
    assert_eq!(facing_from_yaw(-1), PropVal::South);
    assert_eq!(facing_from_yaw(-2250), PropVal::North);
    assert_eq!(facing_from_yaw(i32::MIN), facing_from_yaw(((i32::MIN as i64).rem_euclid(3600)) as i32));
}

#[test]
fn vertical_choice() {
    assert_eq!(vertical_from_face(BlockFace::Bottom, false), PropVal::Top);
    assert_eq!(vertical_from_face(BlockFace::Top, true), PropVal::Bottom);
    assert_eq!(vertical_from_face(BlockFace::North, true), PropVal::Top);
    assert_eq!(vertical_from_face(BlockFace::East, false), PropVal::Bottom);
}

#[test]
fn neighbours() {
    let p = pos(3, 4, 5);
    assert_eq!(neighbor_pos(p, BlockFace::Bottom), pos(3, 3, 5));
    assert_eq!(neighbor_pos(p, BlockFace::Top), pos(3, 5, 5));
    assert_eq!(neighbor_pos(p, BlockFace::North), pos(3, 4, 4));
    assert_eq!(neighbor_pos(p, BlockFace::South), pos(3, 4, 6));
    assert_eq!(neighbor_pos(p, BlockFace::West), pos(2, 4, 5));
    assert_eq!(neighbor_pos(p, BlockFace::East), pos(4, 4, 5));
}

#[test]
fn placed_states() {
    let stairs_kind = BlockKind { id: kind_index(VKind::OakStairs) };
    let s = placed_state(stairs_kind, PropVal::West, PropVal::Top);
    let expect = VState::OAK_STAIRS.set(PropName::Facing, PropValue::West).set(PropName::Half, PropValue::Top);
    assert_eq!(s.raw, expect.to_raw());
    let slab = BlockKind { id: kind_index(VKind::OakSlab) };
    let s = placed_state(slab, PropVal::West, PropVal::Top);
    assert_eq!(s.raw, VState::OAK_SLAB.set(PropName::Type, PropValue::Top).to_raw());
    let stone = BlockKind { id: kind_index(VKind::Stone) };
    assert_eq!(placed_state(stone, PropVal::North, PropVal::Top).raw, VState::STONE.to_raw());
}

#[test]
fn digging_by_mode() {
    let mut w = bootstrap(1, 4, 0);
    let s = Sessions { clients: vec![session(1, GameMode::Creative, 0, None), session(2, GameMode::Survival, 0, None), session(3, GameMode::Adventure, 0, None)] };
    let g = BlockState::grass_block();
    dig_survival(&mut w, &s, 1, pos(0, 0, 0));
    assert_eq!(w.get_block(pos(0, 0, 0)), Some(g));
    dig_creative(&mut w, &s, 1, pos(0, 0, 0));
    assert_eq!(w.get_block(pos(0, 0, 0)), Some(BlockState::air()));
    dig_creative(&mut w, &s, 2, pos(1, 0, 0));
    assert_eq!(w.get_block(pos(1, 0, 0)), Some(g));
    dig_survival(&mut w, &s, 2, pos(1, 0, 0));
    assert_eq!(w.get_block(pos(1, 0, 0)), Some(BlockState::air()));
    dig_creative(&mut w, &s, 3, pos(2, 0, 0));
    dig_survival(&mut w, &s, 3, pos(2, 0, 0));
    dig_creative(&mut w, &s, 9, pos(2, 0, 0));
    assert_eq!(w.get_block(pos(2, 0, 0)), Some(g));
}

fn click(client: u64, p: BlockPos, face: BlockFace) -> UseItemOnBlock {
    UseItemOnBlock { client, position: p, face, cursor_upper: false, main_hand: true }
}

#[test]
fn place_into_air_replaces_clicked_cell() {
    let mut w = bootstrap(1, 4, 0);
    let mut s = Sessions { clients: vec![session(1, GameMode::Creative, 0, Some(stairs(5)))] };
    place_block(&mut w, &mut s, click(1, pos(0, 1, 0), BlockFace::Top));
    let expect = VState::OAK_STAIRS.set(PropName::Facing, PropValue::South).set(PropName::Half, PropValue::Bottom);
    assert_eq!(w.get_block(pos(0, 1, 0)), Some(BlockState { raw: expect.to_raw() }));
    assert_eq!(w.get_block(pos(0, 2, 0)), Some(BlockState::air()));
    assert_eq!(s.clients[0].inventory.slots[0], Some(stairs(5)));
}

#[test]
fn place_against_solid_uses_neighbour() {
    let mut w = bootstrap(1, 4, 0);
    let mut s = Sessions { clients: vec![session(1, GameMode::Creative, 900, Some(stairs(1)))] };
    let mut ev = click(1, pos(0, 0, 0), BlockFace::East);
    ev.cursor_upper = true;
    place_block(&mut w, &mut s, ev);
    assert_eq!(w.get_block(pos(0, 0, 0)), Some(BlockState::grass_block()));
    let expect = VState::OAK_STAIRS.set(PropName::Facing, PropValue::West).set(PropName::Half, PropValue::Top);
    assert_eq!(w.get_block(pos(1, 0, 0)), Some(BlockState { raw: expect.to_raw() }));
    assert_eq!(s.clients[0].inventory.slots[0], Some(stairs(1)));
}

#[test]
fn survival_consumes_one() {
    let mut w = bootstrap(1, 4, 0);
    let mut s = Sessions { clients: vec![session(1, GameMode::Survival, 0, Some(stairs(2)))] };
    place_block(&mut w, &mut s, click(1, pos(0, 0, 0), BlockFace::Top));
    assert_eq!(s.clients[0].inventory.slots[0], Some(stairs(1)));
    place_block(&mut w, &mut s, click(1, pos(0, 1, 0), BlockFace::Top));
    assert_eq!(s.clients[0].inventory.slots[0], None);
    assert!(w.get_block(pos(0, 2, 0)) != Some(BlockState::air()));
    place_block(&mut w, &mut s, click(1, pos(0, 2, 0), BlockFace::Top));
    assert_eq!(w.get_block(pos(0, 3, 0)), Some(BlockState::air()));
}

#[test]
fn dropped_placements() {
    let mut w = bootstrap(1, 4, 0);
    let apple = ItemStack { item: 7, count: 3, block: None };
    let mut s = Sessions { clients: vec![session(1, GameMode::Survival, 0, Some(apple)), session(2, GameMode::Survival, 0, Some(stairs(3)))] };
    place_block(&mut w, &mut s, click(1, pos(0, 0, 0), BlockFace::Top));
    let mut off = click(2, pos(0, 0, 0), BlockFace::Top);
    off.main_hand = false;
    place_block(&mut w, &mut s, off);
    place_block(&mut w, &mut s, click(5, pos(0, 0, 0), BlockFace::Top));
    s.clients[1].held_slot = 4;
    place_block(&mut w, &mut s, click(2, pos(0, 0, 0), BlockFace::Top));
    assert_eq!(w.get_block(pos(0, 1, 0)), Some(BlockState::air()));
    assert_eq!(s.clients[0].inventory.slots[0], Some(apple));
    assert_eq!(s.clients[1].inventory.slots[0], Some(stairs(3)));
}

#[test]
fn survival_stairs_end_to_end() {
    let mut w = bootstrap(5, 25, 63);
    let mut s = Sessions { clients: vec![session(1, GameMode::Survival, 100, Some(stairs(3)))] };
    assert_eq!(w.get_block(pos(0, 64, 0)), Some(BlockState::air()));
    place_block(&mut w, &mut s, click(1, pos(0, 64, 0), BlockFace::Top));
    let expect = VState::OAK_STAIRS
        .set(PropName::Facing, PropValue::South)
        .set(PropName::Half, PropValue::Bottom)
        .set(PropName::Type, PropValue::Bottom);
    assert_eq!(w.get_block(pos(0, 64, 0)), Some(BlockState { raw: expect.to_raw() }));
    assert_eq!(s.clients[0].inventory.slots[0], Some(stairs(2)));
}

#[test]
fn tick_runs_handlers_in_order() {
    let mut w = bootstrap(1, 4, 0);
    let mut s = Sessions { clients: vec![session(1, GameMode::Survival, 2700, Some(stairs(3))), session(2, GameMode::Survival, 0, None)] };
    let events = vec![
        Event::UseItemOnBlock(click(1, pos(2, 1, 2), BlockFace::Top)),
        Event::StartDigging { client: 1, position: pos(2, 1, 2) },
        Event::ClientAdded { client: 1 },
        Event::StartSneaking { client: 2 },
        Event::ClientRemoved { client: 9 },
    ];
    assert_eq!(run_tick(&mut w, &mut s, &events, 5, 0), Ok(()));
    // joining puts client 1 in Creative: its dig clears, then placement writes last
    let expect = VState::OAK_STAIRS.set(PropName::Facing, PropValue::East).set(PropName::Half, PropValue::Bottom);
    assert_eq!(w.get_block(pos(2, 1, 2)), Some(BlockState { raw: expect.to_raw() }));
    assert_eq!(s.clients[0].mode, GameMode::Creative);
    assert_eq!(s.clients[0].instance, Some(5));
    assert_eq!(s.clients[0].position, pos(0, 1, 0));
    assert_eq!(s.clients[0].inventory.slots[0], Some(stairs(3)));
    assert_eq!(s.clients[1].mode, GameMode::Creative);
    assert_eq!(run_tick(&mut w, &mut s, &vec![Event::ClientRemoved { client: 1 }, Event::FinishDigging { client: 2, position: pos(0, 0, 0) }], 5, 0), Ok(()));
    assert_eq!(s.clients.len(), 1);
    assert_eq!(s.clients[0].id, 2);
    assert_eq!(w.get_block(pos(0, 0, 0)), Some(BlockState::grass_block()));
}

#[test]
fn low_vegetation_is_replaceable() {
    for k in [VKind::Grass, VKind::Fern, VKind::DeadBush, VKind::Seagrass, VKind::TallSeagrass, VKind::Vine, VKind::GlowLichen, VKind::TallGrass, VKind::LargeFern, VKind::WarpedRoots, VKind::NetherSprouts, VKind::CrimsonRoots, VKind::HangingRoots] {
        let s = BlockState { raw: k.to_state().to_raw() };
        assert!(s.is_replaceable(), "{:?}", k);
        assert!(BlockKind { id: kind_index(k) }.is_low_vegetation());
        assert_eq!(s.kind(), BlockKind { id: kind_index(k) });
    }
    assert!(BlockState { raw: VState::CAVE_AIR.to_raw() }.is_replaceable());
    assert!(BlockState { raw: VState::VOID_AIR.to_raw() }.is_replaceable());
    assert!(BlockState { raw: VState::LAVA.to_raw() }.is_replaceable());
    assert!(!BlockState { raw: VState::STONE.to_raw() }.is_replaceable());
    assert!(!BlockState { raw: VState::OAK_SLAB.to_raw() }.is_replaceable());
    assert_eq!(BlockState::grass_block().kind(), BlockKind { id: kind_index(VKind::GrassBlock) });
}

#[test]
fn place_against_short_grass_replaces_it() {
    let mut w = bootstrap(1, 4, 0);
    let short_grass = BlockState { raw: VState::GRASS.to_raw() };
    w.set_block(pos(1, 1, 1), short_grass);
    let mut s = Sessions { clients: vec![session(1, GameMode::Creative, 0, Some(stairs(2)))] };
    place_block(&mut w, &mut s, click(1, pos(1, 1, 1), BlockFace::North));
    let expect = VState::OAK_STAIRS.set(PropName::Facing, PropValue::South).set(PropName::Half, PropValue::Bottom);
    assert_eq!(w.get_block(pos(1, 1, 1)), Some(BlockState { raw: expect.to_raw() }));
    assert_eq!(w.get_block(pos(1, 1, 0)), Some(BlockState::air()));
}

#[test]
fn tick_fails_only_on_real_writes_outside() {
    let mut w = bootstrap(1, 16, 0);
    let mut s = Sessions { clients: vec![session(1, GameMode::Survival, 0, None), session(2, GameMode::Creative, 0, Some(stairs(1)))] };
    let far = pos(100, 0, 100);
    let dropped = vec![
        Event::StartDigging { client: 1, position: far },
        Event::FinishDigging { client: 2, position: far },
        Event::StartDigging { client: 7, position: far },
        Event::UseItemOnBlock(click(1, far, BlockFace::Top)),
        Event::UseItemOnBlock(UseItemOnBlock { client: 2, position: far, face: BlockFace::Top, cursor_upper: false, main_hand: false }),
    ];
    assert_eq!(run_tick(&mut w, &mut s, &dropped, 0, 0), Ok(()));
    let fatal = vec![Event::StartSneaking { client: 1 }, Event::FinishDigging { client: 1, position: far }, Event::StartDigging { client: 1, position: far }];
    assert_eq!(run_tick(&mut w, &mut s, &fatal, 0, 0), Err(2));
    let edge = vec![Event::UseItemOnBlock(click(2, pos(15, 0, 0), BlockFace::East))];
    assert_eq!(run_tick(&mut w, &mut s, &edge, 0, 0), Err(0));
    let inside = vec![Event::UseItemOnBlock(click(2, pos(14, 0, 0), BlockFace::East))];
    assert_eq!(run_tick(&mut w, &mut s, &inside, 0, 0), Ok(()));
    assert!(w.get_block(pos(15, 0, 0)) != Some(BlockState::grass_block()));
}
