//! The block grid: a sparse collection of fixed-size chunks addressed by
//! absolute block coordinates.

use crate::block::{BlockState, AIR_ID};
use vstd::arithmetic::div_mod::{lemma_fundamental_div_mod, lemma_fundamental_div_mod_converse};
use vstd::prelude::*;

verus! {

/// Lowest block height of a chunk.
pub const MIN_Y: i32 = -64;

/// Number of block layers in a chunk.
pub const HEIGHT: i32 = 384;

/// Number of cells in a chunk: 16 by 16 columns of `HEIGHT` layers.
pub const CHUNK_CELLS: usize = 98304;

/// An absolute block coordinate.
#[derive(Clone, Copy, Debug, PartialEq, Eq, Structural)]
pub struct BlockPos {
    pub x: i32,
    pub y: i32,
    pub z: i32,
}

/// A chunk: the 16 by 16 column at chunk coordinate (`cx`, `cz`).
pub struct Chunk {
    cx: i32,
    cz: i32,
    blocks: Vec<BlockState>,
}

/// The block grid.
pub struct World {
    chunks: Vec<Chunk>,
}

/// The chunk coordinate of a block coordinate (floor division by 16).
pub open spec fn chunk_coord(v: int) -> int {
    v / 16
}

pub open spec fn in_height(y: int) -> bool {
    MIN_Y <= y < MIN_Y + HEIGHT
}

/// Position of a cell inside its chunk's array.
pub open spec fn local_index(p: BlockPos) -> int {
    ((p.y as int - MIN_Y) * 16 + (p.z as int) % 16) * 16 + (p.x as int) % 16
}

/// Whether the cell lies in the chunk at (`cx`, `cz`).
pub open spec fn in_chunk(p: BlockPos, cx: int, cz: int) -> bool {
    chunk_coord(p.x as int) == cx && chunk_coord(p.z as int) == cz && in_height(p.y as int)
}

proof fn lemma_local_index_bounds(p: BlockPos)
    requires
        in_height(p.y as int),
    ensures
        0 <= local_index(p) < CHUNK_CELLS,
{
    let a = p.y as int - MIN_Y;
    let b = (p.z as int) % 16;
    let c = (p.x as int) % 16;
    assert(0 <= a < 384 && 0 <= b < 16 && 0 <= c < 16);
    assert(0 <= (a * 16 + b) * 16 + c < 98304) by (nonlinear_arith)
        requires
            0 <= a < 384,
            0 <= b < 16,
            0 <= c < 16,
    ;
}

proof fn lemma_local_index_injective(p: BlockPos, q: BlockPos)
    requires
        in_height(p.y as int),
        in_height(q.y as int),
        chunk_coord(p.x as int) == chunk_coord(q.x as int),
        chunk_coord(p.z as int) == chunk_coord(q.z as int),
        local_index(p) == local_index(q),
    ensures
        p == q,
{
    let k1 = (p.y as int - MIN_Y) * 16 + (p.z as int) % 16;
    let k2 = (q.y as int - MIN_Y) * 16 + (q.z as int) % 16;
    let i = local_index(p);
    lemma_fundamental_div_mod_converse(i, 16, k1, (p.x as int) % 16);
    lemma_fundamental_div_mod_converse(i, 16, k2, (q.x as int) % 16);
    lemma_fundamental_div_mod_converse(k1, 16, p.y as int - MIN_Y, (p.z as int) % 16);
    lemma_fundamental_div_mod_converse(k1, 16, q.y as int - MIN_Y, (q.z as int) % 16);
    lemma_fundamental_div_mod(p.x as int, 16);
    lemma_fundamental_div_mod(q.x as int, 16);
    lemma_fundamental_div_mod(p.z as int, 16);
    lemma_fundamental_div_mod(q.z as int, 16);
}

/// The chunk coordinate of `v`.
fn chunk_of(v: i32) -> (r: i32)
    ensures
        r == chunk_coord(v as int),
{
    if v >= 0 {
        let u = v as u32;
        proof {
            lemma_fundamental_div_mod_converse(v as int, 16, (u / 16) as int, (u % 16) as int);
        }
        (u / 16) as i32
    } else {
        let u = (-(v as i64) - 1) as u32;
        let q = (u / 16) as i32;
        proof {
            lemma_fundamental_div_mod(u as int, 16);
            lemma_fundamental_div_mod_converse(v as int, 16, -q - 1, 15 - (u % 16) as int);
        }
        -q - 1
    }
}

/// The position of `v` within its chunk.
fn local_of(v: i32) -> (r: usize)
    ensures
        r == (v as int) % 16,
{
    let c = chunk_of(v);
    proof {
        lemma_fundamental_div_mod(v as int, 16);
    }
    (v as i64 - 16 * (c as i64)) as usize
}

impl Chunk {
    pub closed spec fn wf(self) -> bool {
        &&& self.blocks@.len() == CHUNK_CELLS
        &&& forall|j: int| 0 <= j < CHUNK_CELLS ==> (#[trigger] self.blocks@[j]).wf()
    }

    /// A chunk at (`cx`, `cz`) filled with air.
    fn empty(cx: i32, cz: i32) -> (r: Chunk)
        ensures
            r.wf(),
            r.cx == cx,
            r.cz == cz,
            forall|j: int| 0 <= j < CHUNK_CELLS ==> (#[trigger] r.blocks@[j]).raw == AIR_ID,
    {
        let mut blocks: Vec<BlockState> = Vec::new();
        let mut j: usize = 0;
        while j < CHUNK_CELLS
            invariant
                j <= CHUNK_CELLS,
                blocks@.len() == j,
                forall|k: int| 0 <= k < j ==> (#[trigger] blocks@[k]).raw == AIR_ID,
            decreases CHUNK_CELLS - j,
        {
            blocks.push(BlockState::air());
            j = j + 1;
        }
        Chunk { cx, cz, blocks }
    }
}

impl World {
    pub closed spec fn wf(self) -> bool {
        &&& forall|i: int| 0 <= i < self.chunks@.len() ==> (#[trigger] self.chunks@[i]).wf()
        &&& forall|i: int, j: int|
            0 <= i < self.chunks@.len() && 0 <= j < self.chunks@.len() && i != j ==> (
            #[trigger] self.chunks@[i].cx != #[trigger] self.chunks@[j].cx || self.chunks@[i].cz
                != self.chunks@[j].cz)
    }

    /// Whether the chunk at (`cx`, `cz`) is loaded.
    pub closed spec fn has_chunk(self, cx: int, cz: int) -> bool {
        exists|i: int|
            0 <= i < self.chunks@.len() && #[trigger] self.chunks@[i].cx == cx && self.chunks@[i].cz
                == cz
    }

    /// Whether the cell lies in a loaded chunk.
    pub open spec fn loaded(self, p: BlockPos) -> bool {
        in_height(p.y as int) && self.has_chunk(chunk_coord(p.x as int), chunk_coord(p.z as int))
    }

    /// The state of a cell; `None` where its chunk is not loaded.
    pub closed spec fn cell(self, p: BlockPos) -> Option<BlockState> {
        if self.loaded(p) {
            let i = choose|i: int|
                0 <= i < self.chunks@.len() && #[trigger] self.chunks@[i].cx == chunk_coord(
                    p.x as int,
                ) && self.chunks@[i].cz == chunk_coord(p.z as int);
            Some(self.chunks@[i].blocks@[local_index(p)])
        } else {
            None
        }
    }

    proof fn lemma_cell_in(self, i: int, p: BlockPos)
        requires
            self.wf(),
            0 <= i < self.chunks@.len(),
            in_chunk(p, self.chunks@[i].cx as int, self.chunks@[i].cz as int),
        ensures
            self.loaded(p),
            self.cell(p) == Some(self.chunks@[i].blocks@[local_index(p)]),
    {
        assert(self.has_chunk(chunk_coord(p.x as int), chunk_coord(p.z as int)));
    }

    /// A cell has a state exactly where it is loaded.
    pub proof fn lemma_cell_some(self, p: BlockPos)
        ensures
            self.cell(p) is Some <==> self.loaded(p),
    {
    }

    /// Every loaded cell holds a well-formed state.
    pub proof fn lemma_cell_wf(self, p: BlockPos)
        requires
            self.wf(),
            self.loaded(p),
        ensures
            self.cell(p) is Some,
            self.cell(p).unwrap().wf(),
    {
        lemma_local_index_bounds(p);
    }

    /// A grid with no chunk loaded.
    pub fn new() -> (r: World)
        ensures
            r.wf(),
            forall|p: BlockPos| !r.loaded(p),
    {
        World { chunks: Vec::new() }
    }

    /// The index of the chunk at (`cx`, `cz`), if it is loaded.
    fn find_chunk(&self, cx: i32, cz: i32) -> (r: Option<usize>)
        ensures
            match r {
                Some(i) => i < self.chunks@.len() && self.chunks@[i as int].cx == cx
                    && self.chunks@[i as int].cz == cz,
                None => !self.has_chunk(cx as int, cz as int),
            },
    {
        let mut i: usize = 0;
        while i < self.chunks.len()
            invariant
                i <= self.chunks@.len(),
                forall|k: int|
                    0 <= k < i ==> !(#[trigger] self.chunks@[k].cx == cx && self.chunks@[k].cz == cz),
            decreases self.chunks@.len() - i,
        {
            if self.chunks[i].cx == cx && self.chunks[i].cz == cz {
                return Some(i);
            }
            i = i + 1;
        }
        None
    }

    /// The state at `p`; `None` where its chunk is not loaded.
    pub fn get_block(&self, p: BlockPos) -> (r: Option<BlockState>)
        requires
            self.wf(),
        ensures
            r == self.cell(p),
    {
        if p.y < MIN_Y || p.y >= MIN_Y + HEIGHT {
            return None;
        }
        match self.find_chunk(chunk_of(p.x), chunk_of(p.z)) {
            Some(i) => {
                let j = ((p.y - MIN_Y) as usize * 16 + local_of(p.z)) * 16 + local_of(p.x);
                proof {
                    lemma_local_index_bounds(p);
                    self.lemma_cell_in(i as int, p);
                }
                Some(self.chunks[i].blocks[j])
            },
            None => None,
        }
    }

    /// Writes `s` into the loaded cell `p`.
    pub fn set_block(&mut self, p: BlockPos, s: BlockState)
        requires
            old(self).wf(),
            old(self).loaded(p),
            s.wf(),
        ensures
            final(self).wf(),
            forall|q: BlockPos| #[trigger] final(self).loaded(q) == old(self).loaded(q),
            forall|q: BlockPos|
                #[trigger] final(self).cell(q) == if q == p {
                    Some(s)
                } else {
                    old(self).cell(q)
                },
    {
        let i = self.find_chunk(chunk_of(p.x), chunk_of(p.z)).unwrap();
        let j = ((p.y - MIN_Y) as usize * 16 + local_of(p.z)) * 16 + local_of(p.x);
        proof {
            lemma_local_index_bounds(p);
        }
        let ghost before = *self;
        let mut c = self.chunks.remove(i);
        c.blocks.set(j, s);
        self.chunks.insert(i, c);
        assert(self.chunks@ =~= before.chunks@.update(i as int, c));
        assert forall|q: BlockPos| #[trigger] self.loaded(q) == before.loaded(q) by {
            if before.has_chunk(chunk_coord(q.x as int), chunk_coord(q.z as int)) {
                let k = choose|k: int|
                    0 <= k < before.chunks@.len() && #[trigger] before.chunks@[k].cx == chunk_coord(
                        q.x as int,
                    ) && before.chunks@[k].cz == chunk_coord(q.z as int);
                assert(self.chunks@[k].cx == before.chunks@[k].cx);
            }
            if self.has_chunk(chunk_coord(q.x as int), chunk_coord(q.z as int)) {
                let k = choose|k: int|
                    0 <= k < self.chunks@.len() && #[trigger] self.chunks@[k].cx == chunk_coord(
                        q.x as int,
                    ) && self.chunks@[k].cz == chunk_coord(q.z as int);
                assert(before.chunks@[k].cx == self.chunks@[k].cx);
            }
        }
        assert forall|q: BlockPos|
            #[trigger] self.cell(q) == if q == p {
                Some(s)
            } else {
                before.cell(q)
            } by {
            if before.loaded(q) {
                let k = choose|k: int|
                    0 <= k < before.chunks@.len() && #[trigger] before.chunks@[k].cx == chunk_coord(
                        q.x as int,
                    ) && before.chunks@[k].cz == chunk_coord(q.z as int);
                before.lemma_cell_in(k, q);
                self.lemma_cell_in(k, q);
                if k == i && q != p {
                    lemma_local_index_bounds(q);
                    if local_index(q) == local_index(p) {
                        lemma_local_index_injective(p, q);
                    }
                }
            }
        }
    }

    /// Loads an air-filled chunk at (`cx`, `cz`), replacing any chunk there.
    pub fn insert_chunk(&mut self, cx: i32, cz: i32)
        requires
            old(self).wf(),
        ensures
            final(self).wf(),
            forall|q: BlockPos| #[trigger]
                final(self).loaded(q) == (old(self).loaded(q) || in_chunk(q, cx as int, cz as int)),
            forall|q: BlockPos|
                #[trigger] final(self).cell(q) == if in_chunk(q, cx as int, cz as int) {
                    Some(BlockState { raw: AIR_ID })
                } else {
                    old(self).cell(q)
                },
    {
        let ghost before = *self;
        let c = Chunk::empty(cx, cz);
        let found = self.find_chunk(cx, cz);
        let ghost at: int;
        match found {
            Some(i) => {
                self.chunks.remove(i);
                self.chunks.insert(i, c);
                proof {
                    at = i as int;
                }
                assert(self.chunks@ =~= before.chunks@.update(i as int, c));
            },
            None => {
                self.chunks.push(c);
                proof {
                    at = before.chunks@.len() as int;
                }
                assert(self.chunks@ =~= before.chunks@.push(c));
            },
        }
        assert(self.chunks@[at] == c);
        assert forall|k: int| 0 <= k < self.chunks@.len() && k != at implies self.chunks@[k]
            == before.chunks@[k] by {}
        assert forall|q: BlockPos| #[trigger]
            self.loaded(q) == (before.loaded(q) || in_chunk(q, cx as int, cz as int)) by {
            if in_chunk(q, cx as int, cz as int) {
                self.lemma_cell_in(at, q);
            }
            if before.loaded(q) && !in_chunk(q, cx as int, cz as int) {
                let k = choose|k: int|
                    0 <= k < before.chunks@.len() && #[trigger] before.chunks@[k].cx == chunk_coord(
                        q.x as int,
                    ) && before.chunks@[k].cz == chunk_coord(q.z as int);
                assert(self.chunks@[k] == before.chunks@[k]);
                self.lemma_cell_in(k, q);
            }
            if self.loaded(q) && !in_chunk(q, cx as int, cz as int) {
                let k = choose|k: int|
                    0 <= k < self.chunks@.len() && #[trigger] self.chunks@[k].cx == chunk_coord(
                        q.x as int,
                    ) && self.chunks@[k].cz == chunk_coord(q.z as int);
                assert(k != at);
                assert(self.chunks@[k] == before.chunks@[k]);
                before.lemma_cell_in(k, q);
            }
        }
        assert forall|q: BlockPos|
            #[trigger] self.cell(q) == if in_chunk(q, cx as int, cz as int) {
                Some(BlockState { raw: AIR_ID })
            } else {
                before.cell(q)
            } by {
            if in_chunk(q, cx as int, cz as int) {
                self.lemma_cell_in(at, q);
                lemma_local_index_bounds(q);
            } else if before.loaded(q) {
                let k = choose|k: int|
                    0 <= k < before.chunks@.len() && #[trigger] before.chunks@[k].cx == chunk_coord(
                        q.x as int,
                    ) && before.chunks@[k].cz == chunk_coord(q.z as int);
                assert(self.chunks@[k] == before.chunks@[k]);
                before.lemma_cell_in(k, q);
                self.lemma_cell_in(k, q);
            }
        }
    }
}

} // verus!
