//! Per-player session state: game mode, facing, held slot and inventory.

use crate::block::BlockKind;
use crate::grid::BlockPos;
use vstd::prelude::*;

verus! {

/// Text sent to each player once, when the session joins the world.
pub open spec fn greeting() -> Seq<char> {
    "Welcome to Valence! Build something cool."@
}

#[derive(Clone, Copy, Debug, PartialEq, Eq, Structural)]
pub enum GameMode {
    Survival,
    Creative,
    Adventure,
    Spectator,
}

/// A stack of `count` items of kind `item`; `block` is the block kind that the
/// item places, if it places one.
#[derive(Clone, Copy, Debug, PartialEq, Eq)]
pub struct ItemStack {
    pub item: u16,
    pub count: u8,
    pub block: Option<BlockKind>,
}

/// A fixed number of slots, each empty or holding a stack.
pub struct Inventory {
    pub slots: Vec<Option<ItemStack>>,
}

/// A connected player.
///
/// `yaw` is the horizontal facing in tenths of a degree, wrapping modulo 3600.
/// A yaw in degrees converts by rounding ten times it down (`floor`): every
/// facing boundary (45°, 135°, 225°, 315°) is a whole number of tenths, so
/// rounding down keeps each yaw on the same side of each boundary.
/// `instance` is the world the session is attached to, once it is.
pub struct ClientSession {
    pub id: u64,
    pub position: BlockPos,
    pub yaw: i32,
    pub mode: GameMode,
    pub held_slot: usize,
    pub inventory: Inventory,
    pub instance: Option<u64>,
    pub messages: Vec<String>,
}

/// The sessions of all connected players.
pub struct Sessions {
    pub clients: Vec<ClientSession>,
}

impl ItemStack {
    pub open spec fn wf(self) -> bool {
        &&& self.count >= 1
        &&& match self.block {
            Some(k) => k.wf(),
            None => true,
        }
    }
}

impl Inventory {
    pub open spec fn wf(self) -> bool {
        forall|i: int|
            0 <= i < self.slots@.len() ==> match #[trigger] self.slots@[i] {
                Some(st) => st.wf(),
                None => true,
            }
    }

    /// The stack in slot `i`; `None` where the slot is empty or does not exist.
    pub fn slot(&self, i: usize) -> (r: Option<ItemStack>)
        ensures
            r == slot_of(self.slots@, i as int),
    {
        if i < self.slots.len() {
            self.slots[i]
        } else {
            None
        }
    }
}

/// The stack in slot `i` of `slots`, if any.
pub open spec fn slot_of(slots: Seq<Option<ItemStack>>, i: int) -> Option<ItemStack> {
    if 0 <= i < slots.len() {
        slots[i]
    } else {
        None
    }
}

/// The stack in the session's held slot, if any.
pub open spec fn held_stack(c: ClientSession) -> Option<ItemStack> {
    slot_of(c.inventory.slots@, c.held_slot as int)
}

/// Whether `i` is the first session in `s` with identity `id`.
pub open spec fn is_first(s: Seq<ClientSession>, id: u64, i: int) -> bool {
    0 <= i < s.len() && s[i].id == id && forall|j: int| 0 <= j < i ==> #[trigger] s[j].id != id
}

/// The index of the session with identity `id`, if one is connected.
pub open spec fn session_of(s: Seq<ClientSession>, id: u64) -> Option<int> {
    if exists|i: int| is_first(s, id, i) {
        Some(choose|i: int| is_first(s, id, i))
    } else {
        None
    }
}

/// The game mode of the session with identity `id`, if one is connected.
pub open spec fn mode_of(s: Seq<ClientSession>, id: u64) -> Option<GameMode> {
    match session_of(s, id) {
        Some(i) => Some(s[i].mode),
        None => None,
    }
}

impl Sessions {
    /// The index of the session with identity `id`, if one is connected.
    pub fn find(&self, id: u64) -> (r: Option<usize>)
        ensures
            match r {
                Some(i) => session_of(self.clients@, id) == Some(i as int),
                None => session_of(self.clients@, id) is None,
            },
    {
        let mut i: usize = 0;
        while i < self.clients.len()
            invariant
                i <= self.clients@.len(),
                forall|j: int| 0 <= j < i ==> #[trigger] self.clients@[j].id != id,
            decreases self.clients@.len() - i,
        {
            if self.clients[i].id == id {
                let ghost s = self.clients@;
                assert(is_first(s, id, i as int));
                let ghost k = choose|k: int| is_first(s, id, k);
                assert(k == i) by {
                    if k < i {
                        assert(s[k].id != id);
                    } else if k > i {
                        assert(s[i as int].id != id);
                    }
                }
                return Some(i);
            }
            i = i + 1;
        }
        None
    }

    /// Adds a newly connected session.
    pub fn add(&mut self, c: ClientSession)
        ensures
            final(self).clients@ == old(self).clients@.push(c),
    {
        self.clients.push(c);
    }

    /// Releases the session with identity `id`, if one is connected.
    pub fn remove(&mut self, id: u64)
        ensures
            match session_of(old(self).clients@, id) {
                Some(i) => final(self).clients@ == old(self).clients@.remove(i),
                None => final(self).clients@ == old(self).clients@,
            },
    {
        match self.find(id) {
            Some(i) => {
                self.clients.remove(i);
            },
            None => {},
        }
    }
}

} // verus!
