//! Block materials, water-reflection quality, and the cell codes that the
//! dense voxel grid stores.

use vstd::prelude::*;

verus! {

/// Material of a solid block. The set is closed: every block in a scene
/// carries exactly one of these.
#[derive(Clone, Copy, Debug, PartialEq, Eq, Structural)]
pub enum BlockKind {
    Grass,
    Dirt,
    Stone,
    Log,
    Leaves,
    Water,
}

/// Quality of the reflected term of water shading.
#[derive(Clone, Copy, Debug, PartialEq, Eq, Structural)]
pub enum WaterMode {
    /// No reflection: the reflected contribution is black.
    Off,
    /// Sample the procedural sky along the mirrored direction.
    SkyOnly,
    /// Trace one non-recursive ray into the scene.
    ReflectOnce,
}

/// Cell code that a grid cell stores for a kind: 1 through 6, leaving 0 for
/// an empty cell.
pub open spec fn spec_kind_code(k: BlockKind) -> u8 {
    match k {
        BlockKind::Grass => 1,
        BlockKind::Dirt => 2,
        BlockKind::Stone => 3,
        BlockKind::Log => 4,
        BlockKind::Leaves => 5,
        BlockKind::Water => 6,
    }
}

/// Kind denoted by a cell code; 0 and every code above 6 denote an empty cell.
pub open spec fn spec_code_kind(v: u8) -> Option<BlockKind> {
    match v {
        1u8 => Some(BlockKind::Grass),
        2u8 => Some(BlockKind::Dirt),
        3u8 => Some(BlockKind::Stone),
        4u8 => Some(BlockKind::Log),
        5u8 => Some(BlockKind::Leaves),
        6u8 => Some(BlockKind::Water),
        _ => None,
    }
}

/// Cell code of a kind, as stored by grid construction.
pub fn kind_to_u8(k: BlockKind) -> (c: u8)
    ensures
        c == spec_kind_code(k),
{
    match k {
        BlockKind::Grass => 1,
        BlockKind::Dirt => 2,
        BlockKind::Stone => 3,
        BlockKind::Log => 4,
        BlockKind::Leaves => 5,
        BlockKind::Water => 6,
    }
}

/// Kind stored under a cell code, or `None` for an empty cell.
pub fn u8_to_kind(v: u8) -> (k: Option<BlockKind>)
    ensures
        k == spec_code_kind(v),
{
    match v {
        1 => Some(BlockKind::Grass),
        2 => Some(BlockKind::Dirt),
        3 => Some(BlockKind::Stone),
        4 => Some(BlockKind::Log),
        5 => Some(BlockKind::Leaves),
        6 => Some(BlockKind::Water),
        _ => None,
    }
}

/// Every kind's code decodes back to that kind: stamping a block into the
/// grid and reading the cell returns the block's material.
pub proof fn lemma_kind_code_roundtrip(k: BlockKind)
    ensures
        spec_code_kind(spec_kind_code(k)) == Some(k),
{
}

/// A code that decodes to a kind is that kind's code: the grid holds no
/// second representation of a material.
pub proof fn lemma_code_kind_roundtrip(v: u8)
    ensures
        spec_code_kind(v) matches Some(k) ==> spec_kind_code(k) == v,
{
}

/// Whether two water modes are the same variant.
pub fn water_mode_eq(a: WaterMode, b: WaterMode) -> (r: bool)
    ensures
        r == (a == b),
{
    match (a, b) {
        (WaterMode::Off, WaterMode::Off) => true,
        (WaterMode::SkyOnly, WaterMode::SkyOnly) => true,
        (WaterMode::ReflectOnce, WaterMode::ReflectOnce) => true,
        _ => false,
    }
}

} // verus!
