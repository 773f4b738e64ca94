//! One tick: the handlers run over the tick's events in a fixed order, so
//! that a later handler's write to a cell wins.

use crate::grid::{BlockPos, World};
use crate::handlers::{
    dig_creative, dig_survival, dug, joined, neighbor, neighbor_fits, neighbor_in_range,
    neighbor_pos, on_client_added, place_block, placed_one, placement_fits, placing, sneaked,
    UseItemOnBlock,
};
use crate::session::{mode_of, session_of, ClientSession, GameMode, Sessions};
use vstd::prelude::*;

verus! {

/// A player intent delivered for one tick.
#[derive(Clone, Copy, Debug, PartialEq, Eq, Structural)]
pub enum Event {
    ClientAdded { client: u64 },
    ClientRemoved { client: u64 },
    StartSneaking { client: u64 },
    StartDigging { client: u64, position: BlockPos },
    FinishDigging { client: u64, position: BlockPos },
    UseItemOnBlock(UseItemOnBlock),
}

/// Two grids with the same loaded cells and the same states.
pub open spec fn same_grid(a: World, b: World) -> bool {
    &&& b.wf()
    &&& forall|q: BlockPos| #[trigger] b.loaded(q) == a.loaded(q)
    &&& forall|q: BlockPos| #[trigger] b.cell(q) == a.cell(q)
}

/// What the lifecycle handler makes of `s0` on one event.
pub open spec fn lifecycle_step(
    s0: Seq<ClientSession>,
    s1: Seq<ClientSession>,
    ev: Event,
    instance: u64,
    spawn_y: int,
) -> bool {
    match ev {
        Event::ClientAdded { client } => match session_of(s0, client) {
            Some(i) => {
                &&& s1.len() == s0.len()
                &&& joined(s0[i], s1[i], instance, spawn_y)
                &&& forall|j: int| 0 <= j < s0.len() && j != i ==> s1[j] == s0[j]
            },
            None => s1 == s0,
        },
        Event::ClientRemoved { client } => match session_of(s0, client) {
            Some(i) => s1 == s0.remove(i),
            None => s1 == s0,
        },
        _ => s1 == s0,
    }
}

/// What the mode toggle handler makes of `s0` on one event.
pub open spec fn toggle_step(s0: Seq<ClientSession>, s1: Seq<ClientSession>, ev: Event) -> bool {
    match ev {
        Event::StartSneaking { client } => sneaked(s0, s1, client),
        _ => s1 == s0,
    }
}

/// The client and cell of a dig event that the handler for `mode` reacts to.
pub open spec fn dig_event(ev: Event, mode: GameMode) -> Option<(u64, BlockPos)> {
    match ev {
        Event::StartDigging { client, position } => if mode == GameMode::Creative {
            Some((client, position))
        } else {
            None
        },
        Event::FinishDigging { client, position } => if mode == GameMode::Survival {
            Some((client, position))
        } else {
            None
        },
        _ => None,
    }
}

/// What the digging handler for `mode` makes of `w0` on one event.
pub open spec fn dig_step(w0: World, w1: World, s: Seq<ClientSession>, ev: Event, mode: GameMode) -> bool {
    match dig_event(ev, mode) {
        Some((client, pos)) => dug(w0, w1, pos, mode_of(s, client) == Some(mode)),
        None => same_grid(w0, w1),
    }
}

/// What the placement handler makes of `w0` and `s0` on one event.
pub open spec fn place_step(
    w0: World,
    s0: Seq<ClientSession>,
    w1: World,
    s1: Seq<ClientSession>,
    ev: Event,
) -> bool {
    match ev {
        Event::UseItemOnBlock(u) => placed_one(w0, s0, w1, s1, u),
        _ => same_grid(w0, w1) && s1 == s0,
    }
}

/// `s1` is `s0` after the lifecycle handler ran over `evs` in order.
pub open spec fn lifecycle_pass(
    s0: Seq<ClientSession>,
    s1: Seq<ClientSession>,
    evs: Seq<Event>,
    instance: u64,
    spawn_y: int,
) -> bool
    decreases evs.len(),
{
    if evs.len() == 0 {
        s1 == s0
    } else {
        exists|sm: Seq<ClientSession>|
            lifecycle_pass(s0, sm, evs.drop_last(), instance, spawn_y) && #[trigger] lifecycle_step(
                sm,
                s1,
                evs.last(),
                instance,
                spawn_y,
            )
    }
}

/// `s1` is `s0` after the mode toggle handler ran over `evs` in order.
pub open spec fn toggle_pass(s0: Seq<ClientSession>, s1: Seq<ClientSession>, evs: Seq<Event>) -> bool
    decreases evs.len(),
{
    if evs.len() == 0 {
        s1 == s0
    } else {
        exists|sm: Seq<ClientSession>|
            toggle_pass(s0, sm, evs.drop_last()) && #[trigger] toggle_step(sm, s1, evs.last())
    }
}

/// `w1` is `w0` after the digging handler for `mode` ran over `evs` in order.
pub open spec fn dig_pass(w0: World, w1: World, s: Seq<ClientSession>, evs: Seq<Event>, mode: GameMode) -> bool
    decreases evs.len(),
{
    if evs.len() == 0 {
        same_grid(w0, w1)
    } else {
        exists|wm: World| dig_pass(w0, wm, s, evs.drop_last(), mode) && #[trigger] dig_step(wm, w1, s, evs.last(), mode)
    }
}

/// `w1` and `s1` are `w0` and `s0` after the placement handler ran over `evs`
/// in order.
pub open spec fn place_pass(
    w0: World,
    s0: Seq<ClientSession>,
    w1: World,
    s1: Seq<ClientSession>,
    evs: Seq<Event>,
) -> bool
    decreases evs.len(),
{
    if evs.len() == 0 {
        same_grid(w0, w1) && s1 == s0
    } else {
        exists|wm: World, sm: Seq<ClientSession>|
            place_pass(w0, s0, wm, sm, evs.drop_last()) && #[trigger] place_step(wm, sm, w1, s1, evs.last())
    }
}

/// Every cell that an event of `evs` digs or clicks is loaded in `w`, and so
/// is the neighbour across each clicked face: enough for a tick to succeed,
/// whatever the sessions hold.
pub open spec fn targets_loaded(w: World, evs: Seq<Event>) -> bool {
    forall|k: int|
        0 <= k < evs.len() ==> match #[trigger] evs[k] {
            Event::StartDigging { position, .. } => w.loaded(position),
            Event::FinishDigging { position, .. } => w.loaded(position),
            Event::UseItemOnBlock(u) => w.loaded(u.position) && neighbor_fits(u.position, u.face)
                && w.loaded(neighbor(u.position, u.face)),
            _ => true,
        }
}

/// Every stack in every session holds at least one item of a known kind.
pub open spec fn inventories_wf(s: Seq<ClientSession>) -> bool {
    forall|i: int| 0 <= i < s.len() ==> (#[trigger] s[i]).inventory.wf()
}

impl Sessions {
    /// Lifecycle handler for a connection: attaches the session of `client`
    /// to world `instance`. An unknown client is ignored.
    pub fn join(&mut self, client: u64, instance: u64, spawn_y: i32)
        requires
            spawn_y < i32::MAX,
        ensures
            lifecycle_step(
                old(self).clients@,
                final(self).clients@,
                Event::ClientAdded { client },
                instance,
                spawn_y as int,
            ),
    {
        match self.find(client) {
            Some(i) => {
                let mut c = self.clients.remove(i);
                on_client_added(&mut c, instance, spawn_y);
                self.clients.insert(i, c);
            },
            None => {},
        }
    }
}

/// Grid `w1` and sessions `s1` are what one tick over `evs` makes of `w0`
/// and `s0`: the lifecycle handler runs over all events, then the mode
/// toggle handler, then creative digging, then survival digging, then
/// placement.
pub open spec fn tick(
    w0: World,
    s0: Seq<ClientSession>,
    w1: World,
    s1: Seq<ClientSession>,
    evs: Seq<Event>,
    instance: u64,
    spawn_y: int,
) -> bool {
    exists|sa: Seq<ClientSession>, sb: Seq<ClientSession>, wc: World, wd: World|
        #[trigger] lifecycle_pass(s0, sa, evs, instance, spawn_y) && #[trigger] toggle_pass(sa, sb, evs)
            && #[trigger] dig_pass(w0, wc, sb, evs, GameMode::Creative) && #[trigger] dig_pass(
            wc,
            wd,
            sb,
            evs,
            GameMode::Survival,
        ) && place_pass(wd, sb, w1, s1, evs)
}

proof fn lemma_removed_wf(s: Seq<ClientSession>, i: int)
    requires
        inventories_wf(s),
        0 <= i < s.len(),
    ensures
        inventories_wf(s.remove(i)),
{
    assert forall|j: int| 0 <= j < s.remove(i).len() implies (#[trigger] s.remove(i)[j]).inventory.wf() by {
        if j < i {
            assert(s.remove(i)[j] == s[j]);
        } else {
            assert(s.remove(i)[j] == s[j + 1]);
        }
    }
}

fn lifecycle_handler(sessions: &mut Sessions, events: &Vec<Event>, instance: u64, spawn_y: i32)
    requires
        spawn_y < i32::MAX,
        inventories_wf(old(sessions).clients@),
    ensures
        lifecycle_pass(old(sessions).clients@, final(sessions).clients@, events@, instance, spawn_y as int),
        inventories_wf(final(sessions).clients@),
{
    let ghost s0 = sessions.clients@;
    let mut k: usize = 0;
    while k < events.len()
        invariant
            k <= events@.len(),
            spawn_y < i32::MAX,
            inventories_wf(sessions.clients@),
            lifecycle_pass(s0, sessions.clients@, events@.take(k as int), instance, spawn_y as int),
        decreases events@.len() - k,
    {
        let ghost sm = sessions.clients@;
        match events[k] {
            Event::ClientAdded { client } => sessions.join(client, instance, spawn_y),
            Event::ClientRemoved { client } => {
                sessions.remove(client);
                proof {
                    if let Some(i) = session_of(sm, client) {
                        lemma_removed_wf(sm, i);
                    }
                }
            },
            _ => {},
        }
        proof {
            assert(events@.take(k + 1).drop_last() =~= events@.take(k as int));
            assert(lifecycle_step(sm, sessions.clients@, events@.take(k + 1).last(), instance, spawn_y as int));
            assert(inventories_wf(sessions.clients@)) by {
                if let Event::ClientAdded { client } = events@[k as int] {
                    if let Some(i) = session_of(sm, client) {
                        assert forall|j: int| 0 <= j < sessions.clients@.len() implies (
                        #[trigger] sessions.clients@[j]).inventory.wf() by {
                            if j != i {
                                assert(sessions.clients@[j] == sm[j]);
                            } else {
                                assert(sm[j].inventory.wf());
                            }
                        }
                    }
                }
            }
        }
        k = k + 1;
    }
    proof {
        assert(events@.take(events@.len() as int) =~= events@);
    }
}

fn toggle_handler(sessions: &mut Sessions, events: &Vec<Event>)
    requires
        inventories_wf(old(sessions).clients@),
    ensures
        toggle_pass(old(sessions).clients@, final(sessions).clients@, events@),
        inventories_wf(final(sessions).clients@),
{
    let ghost s0 = sessions.clients@;
    let mut k: usize = 0;
    while k < events.len()
        invariant
            k <= events@.len(),
            inventories_wf(sessions.clients@),
            toggle_pass(s0, sessions.clients@, events@.take(k as int)),
        decreases events@.len() - k,
    {
        let ghost sm = sessions.clients@;
        match events[k] {
            Event::StartSneaking { client } => sessions.on_start_sneaking(client),
            _ => {},
        }
        proof {
            assert(events@.take(k + 1).drop_last() =~= events@.take(k as int));
            assert(toggle_step(sm, sessions.clients@, events@.take(k + 1).last()));
            assert(inventories_wf(sessions.clients@)) by {
                if let Event::StartSneaking { client } = events@[k as int] {
                    if let Some(i) = session_of(sm, client) {
                        assert forall|j: int| 0 <= j < sessions.clients@.len() implies (
                        #[trigger] sessions.clients@[j]).inventory.wf() by {
                            if j != i {
                                assert(sessions.clients@[j] == sm[j]);
                            } else {
                                assert(sm[j].inventory.wf());
                            }
                        }
                    }
                }
            }
        }
        k = k + 1;
    }
    proof {
        assert(events@.take(events@.len() as int) =~= events@);
    }
}

/// Whether the digging handler for `mode` would write event `ev` into a cell
/// outside the loaded chunks of `w`.
pub open spec fn dig_blocked(w: World, s: Seq<ClientSession>, ev: Event, mode: GameMode) -> bool {
    match dig_event(ev, mode) {
        Some((client, pos)) => mode_of(s, client) == Some(mode) && !w.loaded(pos),
        None => false,
    }
}

/// Whether the placement handler would write event `ev` into a cell outside
/// the loaded chunks of `w` (or past the coordinate range).
pub open spec fn place_blocked(w: World, s: Seq<ClientSession>, ev: Event) -> bool {
    match ev {
        Event::UseItemOnBlock(u) => placing(s, u) is Some && !placement_fits(w, u),
        _ => false,
    }
}

/// Whether, in the tick over `evs` from `w0` and `s0`, event `k` is handled
/// by a handler that writes it outside the loaded chunks.
pub open spec fn write_blocked(
    w0: World,
    s0: Seq<ClientSession>,
    evs: Seq<Event>,
    instance: u64,
    spawn_y: int,
    k: int,
) -> bool {
    exists|sa: Seq<ClientSession>, sb: Seq<ClientSession>|
        #[trigger] lifecycle_pass(s0, sa, evs, instance, spawn_y) && #[trigger] toggle_pass(sa, sb, evs)
            && (dig_blocked(w0, sb, evs[k], GameMode::Creative) || dig_blocked(
            w0,
            sb,
            evs[k],
            GameMode::Survival,
        ) || exists|wc: World, wd: World, wm: World, sm: Seq<ClientSession>|
            #[trigger] dig_pass(w0, wc, sb, evs, GameMode::Creative) && #[trigger] dig_pass(
                wc,
                wd,
                sb,
                evs,
                GameMode::Survival,
            ) && #[trigger] place_pass(wd, sb, wm, sm, evs.take(k)) && place_blocked(wm, sm, evs[k]))
}

/// Whether the session of `client` is connected and in `mode`.
fn mode_is(sessions: &Sessions, client: u64, mode: GameMode) -> (r: bool)
    ensures
        r == (mode_of(sessions.clients@, client) == Some(mode)),
{
    match sessions.find(client) {
        Some(i) => sessions.clients[i].mode == mode,
        None => false,
    }
}

/// Whether placing `u` would write outside the loaded chunks.
fn placement_blocked(world: &World, sessions: &Sessions, u: UseItemOnBlock) -> (r: bool)
    requires
        world.wf(),
    ensures
        r == (placing(sessions.clients@, u) is Some && !placement_fits(*world, u)),
{
    if !u.main_hand {
        return false;
    }
    let i = match sessions.find(u.client) {
        Some(i) => i,
        None => return false,
    };
    let c = &sessions.clients[i];
    match c.inventory.slot(c.held_slot) {
        Some(st) => {
            if st.block.is_none() {
                return false;
            }
        },
        None => return false,
    }
    match world.get_block(u.position) {
        None => {
            proof {
                world.lemma_cell_some(u.position);
            }
            true
        },
        Some(current) => {
            proof {
                world.lemma_cell_some(u.position);
                world.lemma_cell_wf(u.position);
            }
            if current.is_replaceable() {
                false
            } else if !neighbor_in_range(u.position, u.face) {
                true
            } else {
                let n = neighbor_pos(u.position, u.face);
                proof {
                    world.lemma_cell_some(n);
                }
                world.get_block(n).is_none()
            }
        },
    }
}

fn dig_handler(world: &mut World, sessions: &Sessions, events: &Vec<Event>, mode: GameMode) -> (r: Result<(), usize>)
    requires
        old(world).wf(),
        mode == GameMode::Creative || mode == GameMode::Survival,
    ensures
        match r {
            Ok(_) => dig_pass(*old(world), *final(world), sessions.clients@, events@, mode),
            Err(k) => k < events@.len() && dig_blocked(*old(world), sessions.clients@, events@[k as int], mode),
        },
        targets_loaded(*old(world), events@) ==> r is Ok,
        final(world).wf(),
        forall|q: BlockPos| #[trigger] final(world).loaded(q) == old(world).loaded(q),
{
    let ghost w0 = *world;
    let mut k: usize = 0;
    while k < events.len()
        invariant
            k <= events@.len(),
            mode == GameMode::Creative || mode == GameMode::Survival,
            *old(world) == w0,
            world.wf(),
            forall|q: BlockPos| #[trigger] world.loaded(q) == w0.loaded(q),
            dig_pass(w0, *world, sessions.clients@, events@.take(k as int), mode),
        decreases events@.len() - k,
    {
        let ghost wm = *world;
        match events[k] {
            Event::StartDigging { client, position } => {
                if mode == GameMode::Creative {
                    if mode_is(sessions, client, mode) && world.get_block(position).is_none() {
                        proof {
                            world.lemma_cell_some(position);
                            assert(events@[k as int] == Event::StartDigging { client, position });
                            assert(!w0.loaded(position));
                            assert(mode_of(sessions.clients@, client) == Some(mode));
                            assert(dig_event(events@[k as int], mode) == Some((client, position)));
                            assert(dig_blocked(w0, sessions.clients@, events@[k as int], mode));
                        }
                        return Err(k);
                    }
                    proof {
                        world.lemma_cell_some(position);
                    }
                    dig_creative(world, sessions, client, position);
                }
            },
            Event::FinishDigging { client, position } => {
                if mode == GameMode::Survival {
                    if mode_is(sessions, client, mode) && world.get_block(position).is_none() {
                        proof {
                            world.lemma_cell_some(position);
                            assert(events@[k as int] == Event::FinishDigging { client, position });
                            assert(!w0.loaded(position));
                            assert(mode_of(sessions.clients@, client) == Some(mode));
                            assert(dig_event(events@[k as int], mode) == Some((client, position)));
                            assert(dig_blocked(w0, sessions.clients@, events@[k as int], mode));
                        }
                        return Err(k);
                    }
                    proof {
                        world.lemma_cell_some(position);
                    }
                    dig_survival(world, sessions, client, position);
                }
            },
            _ => {},
        }
        proof {
            assert(events@.take(k + 1).drop_last() =~= events@.take(k as int));
            assert(dig_step(wm, *world, sessions.clients@, events@.take(k + 1).last(), mode));
        }
        k = k + 1;
    }
    proof {
        assert(events@.take(events@.len() as int) =~= events@);
    }
    Ok(())
}

proof fn lemma_place_keeps_inventories(s0: Seq<ClientSession>, s1: Seq<ClientSession>, w0: World, w1: World, u: UseItemOnBlock)
    requires
        inventories_wf(s0),
        placed_one(w0, s0, w1, s1, u),
    ensures
        inventories_wf(s1),
{
    if let Some((i, kind)) = crate::handlers::placing(s0, u) {
        assert forall|j: int| 0 <= j < s1.len() implies (#[trigger] s1[j]).inventory.wf() by {
            if j != i {
                assert(s1[j] == s0[j]);
            } else {
                let c = s0[i];
                assert(c.inventory.wf());
                assert forall|h: int| 0 <= h < s1[j].inventory.slots@.len() implies match #[trigger] s1[j].inventory.slots@[h] {
                    Some(st) => st.wf(),
                    None => true,
                } by {
                    if h != c.held_slot {
                        assert(s1[j].inventory.slots@[h] == c.inventory.slots@[h]);
                    }
                }
            }
        }
    }
}

fn place_handler(world: &mut World, sessions: &mut Sessions, events: &Vec<Event>) -> (r: Result<(), usize>)
    requires
        old(world).wf(),
        inventories_wf(old(sessions).clients@),
    ensures
        match r {
            Ok(_) => place_pass(*old(world), old(sessions).clients@, *final(world), final(sessions).clients@, events@),
            Err(k) => k < events@.len() && exists|wm: World, sm: Seq<ClientSession>|
                #[trigger] place_pass(*old(world), old(sessions).clients@, wm, sm, events@.take(k as int))
                    && place_blocked(wm, sm, events@[k as int]),
        },
        targets_loaded(*old(world), events@) ==> r is Ok,
        final(world).wf(),
        forall|q: BlockPos| #[trigger] final(world).loaded(q) == old(world).loaded(q),
        inventories_wf(final(sessions).clients@),
{
    let ghost w0 = *world;
    let ghost s0 = sessions.clients@;
    let mut k: usize = 0;
    while k < events.len()
        invariant
            k <= events@.len(),
            *old(world) == w0,
            old(sessions).clients@ == s0,
            world.wf(),
            forall|q: BlockPos| #[trigger] world.loaded(q) == w0.loaded(q),
            inventories_wf(sessions.clients@),
            place_pass(w0, s0, *world, sessions.clients@, events@.take(k as int)),
        decreases events@.len() - k,
    {
        let ghost wm = *world;
        let ghost sm = sessions.clients@;
        match events[k] {
            Event::UseItemOnBlock(u) => {
                if placement_blocked(world, sessions, u) {
                    proof {
                        assert(events@[k as int] == Event::UseItemOnBlock(u));
                        assert(place_blocked(wm, sm, events@[k as int]));
                        assert(place_pass(w0, s0, wm, sm, events@.take(k as int)));
                    }
                    return Err(k);
                }
                place_block(world, sessions, u);
                proof {
                    lemma_place_keeps_inventories(sm, sessions.clients@, wm, *world, u);
                }
            },
            _ => {},
        }
        proof {
            assert(events@.take(k + 1).drop_last() =~= events@.take(k as int));
            assert(place_step(wm, sm, *world, sessions.clients@, events@.take(k + 1).last()));
        }
        k = k + 1;
    }
    proof {
        assert(events@.take(events@.len() as int) =~= events@);
    }
    Ok(())
}

/// Runs one tick over `events`: the lifecycle handler (attaching sessions to
/// world `instance` at spawn height `spawn_y`, releasing disconnected ones),
/// then the mode toggle, creative digging, survival digging and placement
/// handlers, each over all events in order.
///
/// A write into a cell outside the loaded chunks is fatal: the tick stops
/// there and returns `Err(k)`, where `k` is the event that a handler would
/// have written out of bounds. Events that handlers drop never fail.
pub fn run_tick(
    world: &mut World,
    sessions: &mut Sessions,
    events: &Vec<Event>,
    instance: u64,
    spawn_y: i32,
) -> (r: Result<(), usize>)
    requires
        old(world).wf(),
        spawn_y < i32::MAX,
        inventories_wf(old(sessions).clients@),
    ensures
        match r {
            Ok(_) => tick(
                *old(world),
                old(sessions).clients@,
                *final(world),
                final(sessions).clients@,
                events@,
                instance,
                spawn_y as int,
            ),
            Err(k) => k < events@.len() && write_blocked(
                *old(world),
                old(sessions).clients@,
                events@,
                instance,
                spawn_y as int,
                k as int,
            ),
        },
        targets_loaded(*old(world), events@) ==> r is Ok,
        final(world).wf(),
        forall|q: BlockPos| #[trigger] final(world).loaded(q) == old(world).loaded(q),
        inventories_wf(final(sessions).clients@),
{
    let ghost w0 = *world;
    let ghost s0 = sessions.clients@;
    lifecycle_handler(sessions, events, instance, spawn_y);
    let ghost sa = sessions.clients@;
    toggle_handler(sessions, events);
    let ghost sb = sessions.clients@;
    match dig_handler(world, sessions, events, GameMode::Creative) {
        Ok(()) => {},
        Err(k) => {
            proof {
                assert(lifecycle_pass(s0, sa, events@, instance, spawn_y as int));
                assert(toggle_pass(sa, sb, events@));
            }
            return Err(k);
        },
    }
    let ghost wc = *world;
    match dig_handler(world, sessions, events, GameMode::Survival) {
        Ok(()) => {},
        Err(k) => {
            proof {
                assert(lifecycle_pass(s0, sa, events@, instance, spawn_y as int));
                assert(toggle_pass(sa, sb, events@));
                assert(dig_blocked(w0, sb, events@[k as int], GameMode::Survival));
            }
            return Err(k);
        },
    }
    let ghost wd = *world;
    match place_handler(world, sessions, events) {
        Ok(()) => {},
        Err(k) => {
            proof {
                assert(lifecycle_pass(s0, sa, events@, instance, spawn_y as int));
                assert(toggle_pass(sa, sb, events@));
                assert(dig_pass(w0, wc, sb, events@, GameMode::Creative));
                assert(dig_pass(wc, wd, sb, events@, GameMode::Survival));
            }
            return Err(k);
        },
    }
    proof {
        assert(lifecycle_pass(s0, sa, events@, instance, spawn_y as int));
        assert(toggle_pass(sa, sb, events@));
        assert(dig_pass(w0, wc, sb, events@, GameMode::Creative));
        assert(dig_pass(wc, wd, sb, events@, GameMode::Survival));
    }
    Ok(())
}

} // verus!
