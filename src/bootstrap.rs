//! The initial world: a square of loaded chunks with a flat ground layer.

use crate::block::{BlockState, AIR_ID, GRASS_BLOCK_ID};
use crate::grid::{chunk_coord, in_height, BlockPos, World};
use vstd::arithmetic::div_mod::lemma_fundamental_div_mod;
use vstd::prelude::*;

verus! {

/// Whether bootstrapping with chunk radius `r` loads the cell.
pub open spec fn bootstrap_loaded(r: int, p: BlockPos) -> bool {
    &&& in_height(p.y as int)
    &&& -r <= chunk_coord(p.x as int) < r
    &&& -r <= chunk_coord(p.z as int) < r
}

/// Whether the cell lies in the ground layer at height `h` of fill radius `f`.
pub open spec fn in_ground(f: int, h: int, p: BlockPos) -> bool {
    p.y == h && -f <= p.x < f && -f <= p.z < f
}

/// The state that bootstrapping leaves in a loaded cell.
pub open spec fn bootstrap_state(f: int, h: int, p: BlockPos) -> BlockState {
    if in_ground(f, h, p) {
        BlockState { raw: GRASS_BLOCK_ID }
    } else {
        BlockState { raw: AIR_ID }
    }
}

/// The world that bootstrapping with chunk radius `r`, fill radius `f` and
/// ground height `h` produces.
pub open spec fn bootstrapped(w: World, r: int, f: int, h: int) -> bool {
    &&& w.wf()
    &&& forall|p: BlockPos| #[trigger] w.loaded(p) == bootstrap_loaded(r, p)
    &&& forall|p: BlockPos| #[trigger]
        w.cell(p) == if bootstrap_loaded(r, p) {
            Some(bootstrap_state(f, h, p))
        } else {
            None
        }
}

/// Whether chunk (`qx`, `qz`) comes before (`cx`, `cz`) in row order.
spec fn chunk_before(qx: int, qz: int, cx: int, cz: int) -> bool {
    qz < cz || (qz == cz && qx < cx)
}

proof fn lemma_ground_loaded(r: int, f: int, v: int)
    requires
        0 <= f <= 16 * r,
        -f <= v < f,
    ensures
        -r <= chunk_coord(v) < r,
{
    lemma_fundamental_div_mod(v, 16);
}

/// Builds the initial world: air-filled chunks at every chunk coordinate with
/// both axes in `[-r, r)`, then the ground block at every `(x, h, z)` with `x`
/// and `z` in `[-f, f)`.
pub fn bootstrap(r: i32, f: i32, h: i32) -> (w: World)
    requires
        0 <= r,
        0 <= f <= 16 * r,
        in_height(h as int),
    ensures
        bootstrapped(w, r as int, f as int, h as int),
{
    let mut w = World::new();
    let mut cz: i32 = -r;
    while cz < r
        invariant
            w.wf(),
            0 <= r,
            -r <= cz <= r,
            forall|p: BlockPos| #[trigger]
                w.loaded(p) == (bootstrap_loaded(r as int, p) && chunk_before(
                    chunk_coord(p.x as int),
                    chunk_coord(p.z as int),
                    -r as int,
                    cz as int,
                )),
            forall|p: BlockPos| #[trigger] w.loaded(p) ==> w.cell(p) == Some(BlockState { raw: AIR_ID }),
        decreases r - cz,
    {
        let mut cx: i32 = -r;
        while cx < r
            invariant
                w.wf(),
                0 <= r,
                -r <= cz < r,
                -r <= cx <= r,
                forall|p: BlockPos| #[trigger]
                    w.loaded(p) == (bootstrap_loaded(r as int, p) && chunk_before(
                        chunk_coord(p.x as int),
                        chunk_coord(p.z as int),
                        cx as int,
                        cz as int,
                    )),
                forall|p: BlockPos| #[trigger]
                    w.loaded(p) ==> w.cell(p) == Some(BlockState { raw: AIR_ID }),
            decreases r - cx,
        {
            w.insert_chunk(cx, cz);
            cx = cx + 1;
        }
        cz = cz + 1;
    }
    let mut z: i32 = -f;
    while z < f
        invariant
            w.wf(),
            0 <= f <= 16 * r,
            in_height(h as int),
            -f <= z <= f,
            forall|p: BlockPos| #[trigger] w.loaded(p) == bootstrap_loaded(r as int, p),
            forall|p: BlockPos| #[trigger]
                w.loaded(p) ==> w.cell(p) == Some(
                    if in_ground(f as int, h as int, p) && p.z < z {
                        BlockState { raw: GRASS_BLOCK_ID }
                    } else {
                        BlockState { raw: AIR_ID }
                    },
                ),
        decreases f - z,
    {
        let mut x: i32 = -f;
        while x < f
            invariant
                w.wf(),
                0 <= f <= 16 * r,
                in_height(h as int),
                -f <= z < f,
                -f <= x <= f,
                forall|p: BlockPos| #[trigger] w.loaded(p) == bootstrap_loaded(r as int, p),
                forall|p: BlockPos| #[trigger]
                    w.loaded(p) ==> w.cell(p) == Some(
                        if in_ground(f as int, h as int, p) && chunk_before(
                            p.x as int,
                            p.z as int,
                            x as int,
                            z as int,
                        ) {
                            BlockState { raw: GRASS_BLOCK_ID }
                        } else {
                            BlockState { raw: AIR_ID }
                        },
                    ),
            decreases f - x,
        {
            let p = BlockPos { x, y: h, z };
            proof {
                lemma_ground_loaded(r as int, f as int, x as int);
                lemma_ground_loaded(r as int, f as int, z as int);
                assert(w.loaded(p));
            }
            w.set_block(p, BlockState::grass_block());
            x = x + 1;
        }
        z = z + 1;
    }
    assert forall|p: BlockPos| #[trigger]
        w.cell(p) == if bootstrap_loaded(r as int, p) {
            Some(bootstrap_state(f as int, h as int, p))
        } else {
            None
        } by {
        w.lemma_cell_some(p);
    }
    w
}

/// Bootstrapping is deterministic: two worlds bootstrapped with the same chunk
/// radius, fill radius and height hold the same state in every cell.
pub proof fn lemma_bootstrap_deterministic(w1: World, w2: World, r: int, f: int, h: int)
    requires
        bootstrapped(w1, r, f, h),
        bootstrapped(w2, r, f, h),
    ensures
        forall|p: BlockPos| #[trigger] w1.cell(p) == w2.cell(p),
        forall|p: BlockPos| #[trigger] w1.loaded(p) == w2.loaded(p),
{
}

/// In a bootstrapped world every loaded cell of the ground layer holds the
/// ground block and every other loaded cell holds air.
pub proof fn lemma_bootstrap_ground(w: World, r: int, f: int, h: int, p: BlockPos)
    requires
        bootstrapped(w, r, f, h),
        w.loaded(p),
    ensures
        in_ground(f, h, p) ==> w.cell(p) == Some(BlockState { raw: GRASS_BLOCK_ID }),
        !in_ground(f, h, p) ==> w.cell(p) == Some(BlockState { raw: AIR_ID }),
{
}

} // verus!
