//! The per-event handlers: joining, mode toggling, digging and placing.

use crate::block::{BlockKind, BlockState, Prop, PropVal, is_replaceable_spec, has_prop, with_prop, kind_default, AIR_ID};
use crate::grid::{BlockPos, World};
use crate::session::{
    greeting, held_stack, mode_of, session_of, ClientSession, GameMode, ItemStack, Sessions,
};
use vstd::arithmetic::div_mod::lemma_fundamental_div_mod_converse;
use vstd::prelude::*;

verus! {

/// The face of a block that a player clicked.
#[derive(Clone, Copy, Debug, PartialEq, Eq, Structural)]
pub enum BlockFace {
    Bottom,
    Top,
    North,
    South,
    West,
    East,
}

/// A player used the item in a hand on the block at `position`.
///
/// `cursor_upper` tells whether the point hit lies above the middle of the
/// clicked face; `main_hand` whether the main hand was used.
#[derive(Clone, Copy, Debug, PartialEq, Eq, Structural)]
pub struct UseItemOnBlock {
    pub client: u64,
    pub position: BlockPos,
    pub face: BlockFace,
    pub cursor_upper: bool,
    pub main_hand: bool,
}

/// The mode that a sneak gesture switches to.
pub open spec fn toggled(m: GameMode) -> GameMode {
    match m {
        GameMode::Survival => GameMode::Creative,
        GameMode::Creative => GameMode::Survival,
        _ => GameMode::Creative,
    }
}

/// The cardinal facing of a yaw given in tenths of a degree.
pub open spec fn facing_of(yaw: int) -> PropVal {
    let a = yaw % 3600;
    if 450 <= a < 1350 {
        PropVal::West
    } else if 1350 <= a < 2250 {
        PropVal::North
    } else if 2250 <= a < 3150 {
        PropVal::East
    } else {
        PropVal::South
    }
}

/// The half (and slab type) that a click on `face` selects.
pub open spec fn vertical_of(face: BlockFace, cursor_upper: bool) -> PropVal {
    match face {
        BlockFace::Bottom => PropVal::Top,
        BlockFace::Top => PropVal::Bottom,
        _ => if cursor_upper {
            PropVal::Top
        } else {
            PropVal::Bottom
        },
    }
}

/// The state placed from default state `d`: facing set where the kind has a
/// facing, half and type set where the kind has either of them.
pub open spec fn placed_raw(d: u16, facing: PropVal, vertical: PropVal) -> u16 {
    let s = if has_prop(d, Prop::Facing) {
        with_prop(d, Prop::Facing, facing)
    } else {
        d
    };
    if has_prop(d, Prop::Half) || has_prop(d, Prop::Type) {
        with_prop(with_prop(s, Prop::Half, vertical), Prop::Type, vertical)
    } else {
        s
    }
}

/// The offset of the neighbour across `face`.
pub open spec fn face_offset(face: BlockFace) -> (int, int, int) {
    match face {
        BlockFace::Bottom => (0, -1, 0),
        BlockFace::Top => (0, 1, 0),
        BlockFace::North => (0, 0, -1),
        BlockFace::South => (0, 0, 1),
        BlockFace::West => (-1, 0, 0),
        BlockFace::East => (1, 0, 0),
    }
}

/// Whether the neighbour of `p` across `face` has 32-bit coordinates.
pub open spec fn neighbor_fits(p: BlockPos, face: BlockFace) -> bool {
    let o = face_offset(face);
    i32::MIN <= p.x + o.0 <= i32::MAX && i32::MIN <= p.y + o.1 <= i32::MAX && i32::MIN <= p.z
        + o.2 <= i32::MAX
}

/// The neighbour of `p` across `face`.
pub open spec fn neighbor(p: BlockPos, face: BlockFace) -> BlockPos {
    let o = face_offset(face);
    BlockPos { x: (p.x + o.0) as i32, y: (p.y + o.1) as i32, z: (p.z + o.2) as i32 }
}

/// The session index and block kind of a placement that goes ahead; `None`
/// where the event is dropped.
pub open spec fn placing(s: Seq<ClientSession>, ev: UseItemOnBlock) -> Option<(int, BlockKind)> {
    if !ev.main_hand {
        None
    } else {
        match session_of(s, ev.client) {
            None => None,
            Some(i) => match held_stack(s[i]) {
                None => None,
                Some(st) => match st.block {
                    None => None,
                    Some(k) => Some((i, k)),
                },
            },
        }
    }
}

/// The cell that a placement writes: the clicked cell where it is
/// replaceable, else its neighbour across the clicked face.
pub open spec fn target_of(w: World, ev: UseItemOnBlock) -> BlockPos {
    if is_replaceable_spec(w.cell(ev.position).unwrap()) {
        ev.position
    } else {
        neighbor(ev.position, ev.face)
    }
}

/// The held slot after a placement: one item fewer in Survival, untouched
/// otherwise.
pub open spec fn slot_after(c: ClientSession) -> Option<ItemStack> {
    let st = held_stack(c).unwrap();
    if c.mode == GameMode::Survival {
        if st.count > 1 {
            Some(ItemStack { count: (st.count - 1) as u8, ..st })
        } else {
            None
        }
    } else {
        Some(st)
    }
}

/// `after` is `before` with only the held slot of the inventory changed, to
/// `slot`.
pub open spec fn held_slot_changed(
    before: ClientSession,
    after: ClientSession,
    slot: Option<ItemStack>,
) -> bool {
    &&& after.inventory.slots@ == before.inventory.slots@.update(before.held_slot as int, slot)
    &&& after.id == before.id
    &&& after.position == before.position
    &&& after.yaw == before.yaw
    &&& after.mode == before.mode
    &&& after.held_slot == before.held_slot
    &&& after.instance == before.instance
    &&& after.messages@ == before.messages@
}

/// `after` is `before` with only the game mode changed, to `m`.
pub open spec fn mode_changed(before: ClientSession, after: ClientSession, m: GameMode) -> bool {
    &&& after.mode == m
    &&& after.inventory.slots@ == before.inventory.slots@
    &&& after.id == before.id
    &&& after.position == before.position
    &&& after.yaw == before.yaw
    &&& after.held_slot == before.held_slot
    &&& after.instance == before.instance
    &&& after.messages@ == before.messages@
}

/// Sessions `s1` are `s0` after a sneak gesture of `client`.
pub open spec fn sneaked(s0: Seq<ClientSession>, s1: Seq<ClientSession>, client: u64) -> bool {
    &&& s1.len() == s0.len()
    &&& match session_of(s0, client) {
        Some(i) => {
            &&& mode_changed(s0[i], s1[i], toggled(s0[i].mode))
            &&& forall|j: int| 0 <= j < s0.len() && j != i ==> s1[j] == s0[j]
        },
        None => s1 == s0,
    }
}

/// The mode after a sneak gesture in mode `m`.
pub fn toggle_mode(m: GameMode) -> (r: GameMode)
    ensures
        r == toggled(m),
{
    match m {
        GameMode::Survival => GameMode::Creative,
        GameMode::Creative => GameMode::Survival,
        _ => GameMode::Creative,
    }
}

/// Toggling twice from Survival or Creative returns to the mode toggled from;
/// toggling from Adventure or Spectator yields Creative.
pub proof fn lemma_toggle_twice(m: GameMode)
    ensures
        (m == GameMode::Survival || m == GameMode::Creative) ==> toggled(toggled(m)) == m,
        (m == GameMode::Adventure || m == GameMode::Spectator) ==> toggled(m)
            == GameMode::Creative,
{
}

/// The cardinal facing of a yaw given in tenths of a degree: South for
/// `[315°, 45°)`, West for `[45°, 135°)`, North for `[135°, 225°)`, East for
/// `[225°, 315°)`.
pub fn facing_from_yaw(yaw: i32) -> (r: PropVal)
    ensures
        r == facing_of(yaw as int),
{
    let a: u32 = if yaw >= 0 {
        let u = yaw as u32;
        proof {
            lemma_fundamental_div_mod_converse(yaw as int, 3600, (u / 3600) as int, (u % 3600) as int);
        }
        u % 3600
    } else {
        let u = (-(yaw as i64)) as u32;
        let q = u / 3600;
        let m = u % 3600;
        if m == 0 {
            proof {
                lemma_fundamental_div_mod_converse(yaw as int, 3600, -(q as int), 0);
            }
            0
        } else {
            proof {
                lemma_fundamental_div_mod_converse(yaw as int, 3600, -(q as int) - 1, 3600 - m as int);
            }
            3600 - m
        }
    };
    if 450 <= a && a < 1350 {
        PropVal::West
    } else if 1350 <= a && a < 2250 {
        PropVal::North
    } else if 2250 <= a && a < 3150 {
        PropVal::East
    } else {
        PropVal::South
    }
}

/// The half (and slab type) that a click on `face` selects.
pub fn vertical_from_face(face: BlockFace, cursor_upper: bool) -> (r: PropVal)
    ensures
        r == vertical_of(face, cursor_upper),
{
    match face {
        BlockFace::Bottom => PropVal::Top,
        BlockFace::Top => PropVal::Bottom,
        _ => if cursor_upper {
            PropVal::Top
        } else {
            PropVal::Bottom
        },
    }
}

/// The state that placing a block of kind `k` yields for the given facing
/// and vertical choice.
pub fn placed_state(k: BlockKind, facing: PropVal, vertical: PropVal) -> (r: BlockState)
    requires
        k.wf(),
    ensures
        r.raw == placed_raw(kind_default(k.id), facing, vertical),
        r.wf(),
{
    let d = k.to_state();
    let has_facing = d.has(Prop::Facing);
    let has_half = d.has(Prop::Half);
    let has_type = d.has(Prop::Type);
    let mut s = d;
    if has_facing {
        s = s.set(Prop::Facing, facing);
    }
    if has_half || has_type {
        s = s.set(Prop::Half, vertical).set(Prop::Type, vertical);
    }
    s
}

/// Whether the neighbour of `p` across `face` has 32-bit coordinates.
pub fn neighbor_in_range(p: BlockPos, face: BlockFace) -> (r: bool)
    ensures
        r == neighbor_fits(p, face),
{
    match face {
        BlockFace::Bottom => p.y > i32::MIN,
        BlockFace::Top => p.y < i32::MAX,
        BlockFace::North => p.z > i32::MIN,
        BlockFace::South => p.z < i32::MAX,
        BlockFace::West => p.x > i32::MIN,
        BlockFace::East => p.x < i32::MAX,
    }
}

/// The neighbour of `p` across `face`.
pub fn neighbor_pos(p: BlockPos, face: BlockFace) -> (r: BlockPos)
    requires
        neighbor_fits(p, face),
    ensures
        r == neighbor(p, face),
{
    match face {
        BlockFace::Bottom => BlockPos { y: p.y - 1, ..p },
        BlockFace::Top => BlockPos { y: p.y + 1, ..p },
        BlockFace::North => BlockPos { z: p.z - 1, ..p },
        BlockFace::South => BlockPos { z: p.z + 1, ..p },
        BlockFace::West => BlockPos { x: p.x - 1, ..p },
        BlockFace::East => BlockPos { x: p.x + 1, ..p },
    }
}

/// Session `after` is `before` attached to world `instance` at spawn height
/// `spawn_y`.
pub open spec fn joined(before: ClientSession, after: ClientSession, instance: u64, spawn_y: int) -> bool {
    &&& after.position == (BlockPos { x: 0, y: (spawn_y + 1) as i32, z: 0 })
    &&& after.instance == Some(instance)
    &&& after.mode == GameMode::Creative
    &&& after.messages@.len() == before.messages@.len() + 1
    &&& after.messages@.drop_last() == before.messages@
    &&& after.messages@.last()@ == greeting()
    &&& after.id == before.id
    &&& after.yaw == before.yaw
    &&& after.held_slot == before.held_slot
    &&& after.inventory.slots@ == before.inventory.slots@
}

/// Attaches a newly connected session to world `instance`: it stands at
/// `(0, spawn_y + 1, 0)` in Creative and receives the greeting.
pub fn on_client_added(c: &mut ClientSession, instance: u64, spawn_y: i32)
    requires
        spawn_y < i32::MAX,
    ensures
        joined(*old(c), *final(c), instance, spawn_y as int),
{
    c.position = BlockPos { x: 0, y: spawn_y + 1, z: 0 };
    c.instance = Some(instance);
    c.mode = GameMode::Creative;
    let ghost before = c.messages@;
    c.messages.push("Welcome to Valence! Build something cool.".to_owned());
    assert(c.messages@.drop_last() =~= before);
}

/// The world that sessions attach to: the sole entry of `instances`, or
/// `None` where there is not exactly one.
pub fn sole_instance(instances: &Vec<u64>) -> (r: Option<u64>)
    ensures
        r == if instances@.len() == 1 {
            Some(instances@[0])
        } else {
            None::<u64>
        },
{
    if instances.len() == 1 {
        Some(instances[0])
    } else {
        None
    }
}

impl Sessions {
    /// Switches the game mode of the sneaking player: Survival and Creative
    /// swap, Adventure and Spectator become Creative. An unknown player is
    /// ignored.
    pub fn on_start_sneaking(&mut self, client: u64)
        ensures
            sneaked(old(self).clients@, final(self).clients@, client),
    {
        match self.find(client) {
            Some(i) => {
                let mut c = self.clients.remove(i);
                c.mode = toggle_mode(c.mode);
                self.clients.insert(i, c);
            },
            None => {},
        }
    }
}

/// The grid after a dig at `pos` that takes effect when `takes_effect` holds.
pub open spec fn dug(before: World, after: World, pos: BlockPos, takes_effect: bool) -> bool {
    &&& after.wf()
    &&& forall|q: BlockPos| #[trigger] after.loaded(q) == before.loaded(q)
    &&& forall|q: BlockPos|
        #[trigger] after.cell(q) == if takes_effect && q == pos {
            Some(BlockState { raw: AIR_ID })
        } else {
            before.cell(q)
        }
}

fn dig_in_mode(world: &mut World, sessions: &Sessions, client: u64, pos: BlockPos, mode: GameMode)
    requires
        old(world).wf(),
        mode_of(sessions.clients@, client) == Some(mode) ==> old(world).loaded(pos),
    ensures
        dug(*old(world), *final(world), pos, mode_of(sessions.clients@, client) == Some(mode)),
{
    match sessions.find(client) {
        Some(i) => {
            if sessions.clients[i].mode == mode {
                world.set_block(pos, BlockState::air());
            }
        },
        None => {},
    }
}

/// Start of a dig: clears the cell at once where the player is in Creative;
/// otherwise, or for an unknown player, the grid stays as it is.
pub fn dig_creative(world: &mut World, sessions: &Sessions, client: u64, pos: BlockPos)
    requires
        old(world).wf(),
        mode_of(sessions.clients@, client) == Some(GameMode::Creative) ==> old(world).loaded(pos),
    ensures
        dug(
            *old(world),
            *final(world),
            pos,
            mode_of(sessions.clients@, client) == Some(GameMode::Creative),
        ),
{
    dig_in_mode(world, sessions, client, pos, GameMode::Creative)
}

/// End of a dig: clears the cell where the player is in Survival; otherwise,
/// or for an unknown player, the grid stays as it is.
pub fn dig_survival(world: &mut World, sessions: &Sessions, client: u64, pos: BlockPos)
    requires
        old(world).wf(),
        mode_of(sessions.clients@, client) == Some(GameMode::Survival) ==> old(world).loaded(pos),
    ensures
        dug(
            *old(world),
            *final(world),
            pos,
            mode_of(sessions.clients@, client) == Some(GameMode::Survival),
        ),
{
    dig_in_mode(world, sessions, client, pos, GameMode::Survival)
}

/// Whether a placement of `ev` can write its cell: the clicked cell is
/// loaded, and where it is not replaceable its neighbour is too.
pub open spec fn placement_fits(w: World, ev: UseItemOnBlock) -> bool {
    &&& w.loaded(ev.position)
    &&& !is_replaceable_spec(w.cell(ev.position).unwrap()) ==> neighbor_fits(ev.position, ev.face)
        && w.loaded(neighbor(ev.position, ev.face))
}

/// Grid `w1` and sessions `s1` are what placing `ev` makes of `w0` and `s0`.
pub open spec fn placed_one(
    w0: World,
    s0: Seq<ClientSession>,
    w1: World,
    s1: Seq<ClientSession>,
    ev: UseItemOnBlock,
) -> bool {
    &&& w1.wf()
    &&& forall|q: BlockPos| #[trigger] w1.loaded(q) == w0.loaded(q)
    &&& s1.len() == s0.len()
    &&& match placing(s0, ev) {
        None => {
            &&& forall|q: BlockPos| #[trigger] w1.cell(q) == w0.cell(q)
            &&& s1 == s0
        },
        Some((i, k)) => {
            let c = s0[i];
            let placed = BlockState {
                raw: placed_raw(
                    kind_default(k.id),
                    facing_of(c.yaw as int),
                    vertical_of(ev.face, ev.cursor_upper),
                ),
            };
            &&& forall|q: BlockPos|
                #[trigger] w1.cell(q) == if q == target_of(w0, ev) {
                    Some(placed)
                } else {
                    w0.cell(q)
                }
            &&& held_slot_changed(c, s1[i], slot_after(c))
            &&& forall|j: int| 0 <= j < s0.len() && j != i ==> s1[j] == s0[j]
        },
    }
}

/// Places the block of the held item. The event is dropped for the off hand,
/// an unknown player, an empty held slot, or an item that places no block.
/// Otherwise, in Survival the held stack loses one item (the slot empties at
/// one); the block's default state gets the facing of the player's yaw and
/// the half and type of the clicked face, for the properties its kind has;
/// and the state is written into the clicked cell where that is replaceable,
/// else into its neighbour across the clicked face.
pub fn place_block(world: &mut World, sessions: &mut Sessions, ev: UseItemOnBlock)
    requires
        old(world).wf(),
        forall|i: int|
            0 <= i < old(sessions).clients@.len() ==> (#[trigger] old(sessions).clients@[i]).inventory.wf(),
        placing(old(sessions).clients@, ev) is Some ==> placement_fits(*old(world), ev),
    ensures
        placed_one(*old(world), old(sessions).clients@, *final(world), final(sessions).clients@, ev),
{
    if !ev.main_hand {
        return;
    }
    let i = match sessions.find(ev.client) {
        Some(i) => i,
        None => return,
    };
    let slot_id = sessions.clients[i].held_slot;
    let stack = match sessions.clients[i].inventory.slot(slot_id) {
        Some(st) => st,
        None => return,
    };
    let kind = match stack.block {
        Some(k) => k,
        None => return,
    };
    proof {
        assert(stack.wf());
        assert(placing(old(sessions).clients@, ev) == Some((i as int, kind)));
    }
    if sessions.clients[i].mode == GameMode::Survival {
        let slot = if stack.count > 1 {
            Some(ItemStack { count: stack.count - 1, ..stack })
        } else {
            None
        };
        let mut c = sessions.clients.remove(i);
        c.inventory.slots.set(slot_id, slot);
        sessions.clients.insert(i, c);
    }
    let ghost c0 = old(sessions).clients@[i as int];
    let facing = facing_from_yaw(sessions.clients[i].yaw);
    let vertical = vertical_from_face(ev.face, ev.cursor_upper);
    let state = placed_state(kind, facing, vertical);
    proof {
        world.lemma_cell_wf(ev.position);
    }
    let current = world.get_block(ev.position).unwrap();
    let target = if current.is_replaceable() {
        ev.position
    } else {
        neighbor_pos(ev.position, ev.face)
    };
    world.set_block(target, state);
    proof {
        assert(sessions.clients@[i as int].inventory.slots@ =~= c0.inventory.slots@.update(
            c0.held_slot as int,
            slot_after(c0),
        ));
    }
}

/// Placing against a replaceable cell (air among them) writes into that
/// cell; placing against a cell that is not replaceable writes into its neighbour across the clicked
/// face, a different cell, so the clicked cell keeps its state.
pub proof fn lemma_replace_or_adjacent(w: World, ev: UseItemOnBlock)
    requires
        w.wf(),
        placement_fits(w, ev),
    ensures
        is_replaceable_spec(w.cell(ev.position).unwrap()) ==> target_of(w, ev) == ev.position,
        !is_replaceable_spec(w.cell(ev.position).unwrap()) ==> target_of(w, ev) == neighbor(
            ev.position,
            ev.face,
        ) && target_of(w, ev) != ev.position,
{
    let o = face_offset(ev.face);
    assert(o.0 != 0 || o.1 != 0 || o.2 != 0);
}

/// In Survival a held stack of more than one item keeps all but one in the
/// same slot, and a stack of one leaves the slot empty; in every other mode
/// the slot is untouched.
pub proof fn lemma_survival_consumption(c: ClientSession)
    requires
        held_stack(c) is Some,
    ensures
        c.mode == GameMode::Survival && held_stack(c).unwrap().count > 1 ==> slot_after(c) == Some(
            ItemStack { count: (held_stack(c).unwrap().count - 1) as u8, ..held_stack(c).unwrap() },
        ),
        c.mode == GameMode::Survival && held_stack(c).unwrap().count == 1 ==> slot_after(c) is None,
        c.mode != GameMode::Survival ==> slot_after(c) == held_stack(c),
{
}

/// A dig leaves the grid as it was unless it takes effect (Creative for the
/// start of a dig, Survival for its end); when it does, the cell becomes air,
/// so the grid changes exactly where the cell held something else.
pub proof fn lemma_dig_mode_exclusive(before: World, after: World, pos: BlockPos, takes_effect: bool)
    requires
        dug(before, after, pos, takes_effect),
        before.loaded(pos),
    ensures
        !takes_effect ==> forall|q: BlockPos| #[trigger] after.cell(q) == before.cell(q),
        takes_effect ==> after.cell(pos) == Some(BlockState { raw: AIR_ID }),
        takes_effect && before.cell(pos) != Some(BlockState { raw: AIR_ID }) ==> after.cell(pos)
            != before.cell(pos),
{
}

} // verus!
