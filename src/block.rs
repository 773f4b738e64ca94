//! Block states as raw state ids, and the block-table lookups they need.

use valence::block::{PropName, PropValue};
use vstd::prelude::*;

verus! {

/// The largest raw block state id of the block table.
pub const MAX_STATE_ID: u16 = 21447;

/// The number of block kinds in the block table.
pub const KIND_COUNT: u16 = 933;

/// Raw id of the `air` block state.
pub const AIR_ID: u16 = 0;

/// Raw id of the default `grass_block` state (not snowy).
pub const GRASS_BLOCK_ID: u16 = 9;

/// A block state, identified by its raw state id in the block table.
#[derive(Clone, Copy, Debug, PartialEq, Eq, Structural)]
pub struct BlockState {
    pub raw: u16,
}

/// A block kind, identified by its position in the block table.
#[derive(Clone, Copy, Debug, PartialEq, Eq, Structural)]
pub struct BlockKind {
    pub id: u16,
}

/// The block state properties that placement derives.
#[derive(Clone, Copy, Debug, PartialEq, Eq, Structural)]
pub enum Prop {
    Facing,
    Half,
    Type,
}

/// The property values that placement assigns.
#[derive(Clone, Copy, Debug, PartialEq, Eq, Structural)]
pub enum PropVal {
    North,
    South,
    West,
    East,
    Top,
    Bottom,
}

/// Whether the block state with this raw id defines the property.
pub uninterp spec fn has_prop(raw: u16, p: Prop) -> bool;

/// The raw id of the state with the property set to the value.
pub uninterp spec fn with_prop(raw: u16, p: Prop, v: PropVal) -> u16;

/// Whether the block state is one of the air blocks: `air` (0), `void_air`
/// (10546) or `cave_air` (10547).
pub open spec fn air_block(raw: u16) -> bool {
    raw == AIR_ID || raw == 10546 || raw == 10547
}

/// Whether the block state is water (75 to 90) or lava (91 to 106).
pub open spec fn liquid_block(raw: u16) -> bool {
    75 <= raw <= 106
}

/// The position in the block table of the kind of the block state.
pub uninterp spec fn kind_of(raw: u16) -> u16;

/// Whether the block kind is low vegetation that a placement may overwrite:
/// grass (110), fern (111), dead bush (112), seagrass (113), tall seagrass
/// (114), vine (272), glow lichen (273), tall grass (447), large fern (448),
/// warped roots (729), nether sprouts (730), crimson roots (742) and hanging
/// roots (898).
pub open spec fn low_vegetation(kind: u16) -> bool {
    kind == 110 || kind == 111 || kind == 112 || kind == 113 || kind == 114 || kind == 272 || kind
        == 273 || kind == 447 || kind == 448 || kind == 729 || kind == 730 || kind == 742 || kind
        == 898
}

/// The raw id of the default state of the block kind.
pub uninterp spec fn kind_default(id: u16) -> u16;

impl BlockState {
    pub open spec fn wf(self) -> bool {
        self.raw <= MAX_STATE_ID
    }

    pub fn air() -> (r: BlockState)
        ensures
            r.raw == AIR_ID,
            r.wf(),
    {
        BlockState { raw: AIR_ID }
    }

    pub fn grass_block() -> (r: BlockState)
        ensures
            r.raw == GRASS_BLOCK_ID,
            r.wf(),
    {
        BlockState { raw: GRASS_BLOCK_ID }
    }

    /// The state with this raw id, if the id is in the block table.
    pub fn from_raw(raw: u16) -> (r: Option<BlockState>)
        ensures
            r == (if raw <= MAX_STATE_ID { Some(BlockState { raw }) } else { None::<BlockState> }),
    {
        if raw <= MAX_STATE_ID {
            Some(BlockState { raw })
        } else {
            None
        }
    }
}

impl BlockKind {
    pub open spec fn wf(self) -> bool {
        self.id < KIND_COUNT
    }

    /// The default state of this kind.
    pub fn to_state(self) -> (r: BlockState)
        requires
            self.wf(),
        ensures
            r.raw == kind_default(self.id),
            r.wf(),
    {
        kind_to_state(self)
    }

    /// Whether this kind is low vegetation that a placement may overwrite.
    pub fn is_low_vegetation(self) -> (r: bool)
        ensures
            r == low_vegetation(self.id),
    {
        let k = self.id;
        k == 110 || k == 111 || k == 112 || k == 113 || k == 114 || k == 272 || k == 273 || k == 447
            || k == 448 || k == 729 || k == 730 || k == 742 || k == 898
    }
}

/// Whether a placement may overwrite the state in place: air, liquid, or low
/// vegetation.
pub open spec fn is_replaceable_spec(s: BlockState) -> bool {
    air_block(s.raw) || liquid_block(s.raw) || low_vegetation(kind_of(s.raw))
}

/// Relies on valence's `BlockState::get`: `Some` exactly for the properties
/// that the state's kind defines.
#[verifier::external_body]
fn state_has(s: BlockState, p: Prop) -> (r: bool)
    requires
        s.wf(),
    ensures
        r == has_prop(s.raw, p),
{
    let b = valence::block::BlockState::from_raw(s.raw).unwrap();
    let n = match p { Prop::Facing => PropName::Facing, Prop::Half => PropName::Half, Prop::Type => PropName::Type };
    b.get(n).is_some()
}

/// Relies on valence's `BlockState::set`: the state with the property set,
/// or the state itself where its kind lacks the property.
#[verifier::external_body]
fn state_set(s: BlockState, p: Prop, v: PropVal) -> (r: BlockState)
    requires
        s.wf(),
    ensures
        r.raw == with_prop(s.raw, p, v),
        r.wf(),
        !has_prop(s.raw, p) ==> r == s,
{
    let b = valence::block::BlockState::from_raw(s.raw).unwrap();
    let n = match p { Prop::Facing => PropName::Facing, Prop::Half => PropName::Half, Prop::Type => PropName::Type };
    let v = match v {
        PropVal::North => PropValue::North, PropVal::South => PropValue::South,
        PropVal::West => PropValue::West, PropVal::East => PropValue::East,
        PropVal::Top => PropValue::Top, PropVal::Bottom => PropValue::Bottom,
    };
    BlockState { raw: b.set(n, v).to_raw() }
}

/// Relies on valence's `BlockState::is_air`: air, cave air and void air, each
/// a kind with a single state.
#[verifier::external_body]
fn state_is_air(s: BlockState) -> (r: bool)
    requires
        s.wf(),
    ensures
        r == air_block(s.raw),
{
    valence::block::BlockState::from_raw(s.raw).unwrap().is_air()
}

/// Relies on valence's `BlockState::is_liquid`: the states of the kinds water
/// and lava.
#[verifier::external_body]
fn state_is_liquid(s: BlockState) -> (r: bool)
    requires
        s.wf(),
    ensures
        r == liquid_block(s.raw),
{
    valence::block::BlockState::from_raw(s.raw).unwrap().is_liquid()
}

/// Relies on valence's `BlockState::to_kind`: the kind of a state, as its
/// position in `BlockKind::ALL` (the enum's variants stand in that order).
#[verifier::external_body]
fn state_kind(s: BlockState) -> (r: BlockKind)
    requires
        s.wf(),
    ensures
        r.id == kind_of(s.raw),
        r.wf(),
{
    BlockKind { id: valence::block::BlockState::from_raw(s.raw).unwrap().to_kind() as u16 }
}

/// Relies on valence's `BlockKind::to_state`: the default state of the kind
/// at this position of `BlockKind::ALL`.
#[verifier::external_body]
fn kind_to_state(k: BlockKind) -> (r: BlockState)
    requires
        k.wf(),
    ensures
        r.raw == kind_default(k.id),
        r.wf(),
{
    BlockState { raw: valence::block::BlockKind::ALL[k.id as usize].to_state().to_raw() }
}

impl BlockState {
    /// Whether the state defines the property.
    pub fn has(self, p: Prop) -> (r: bool)
        requires
            self.wf(),
        ensures
            r == has_prop(self.raw, p),
    {
        state_has(self, p)
    }

    /// The state with the property set; the state itself where its kind lacks
    /// the property.
    pub fn set(self, p: Prop, v: PropVal) -> (r: BlockState)
        requires
            self.wf(),
        ensures
            r.raw == with_prop(self.raw, p, v),
            r.wf(),
            !has_prop(self.raw, p) ==> r == self,
    {
        state_set(self, p, v)
    }

    /// The kind of this state.
    pub fn kind(self) -> (r: BlockKind)
        requires
            self.wf(),
        ensures
            r.id == kind_of(self.raw),
            r.wf(),
    {
        state_kind(self)
    }

    /// Whether a placement may overwrite this state in place: air, liquid, or
    /// low vegetation such as short grass.
    pub fn is_replaceable(self) -> (r: bool)
        requires
            self.wf(),
        ensures
            r == is_replaceable_spec(self),
    {
        state_is_air(self) || state_is_liquid(self) || self.kind().is_low_vegetation()
    }
}


} // verus!
