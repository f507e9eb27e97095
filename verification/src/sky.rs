//! The discrete core of the night sky's procedural stars: a spatial hash
//! of a direction's horizontal cell that decides, deterministically, where
//! a star sits and how bright it is.
//!
//! The caller scales the ray direction's `x` and `z` by the star density
//! and floors them to the cell integers; the fade near the horizon and the
//! final brightness are floating point and stay with the caller.

use vstd::prelude::*;

verus! {

/// The star hash of a sky cell: a pure function of the two cell integers,
/// so two renders of one frame see the same stars.
pub open spec fn spec_star_hash(x: i32, z: i32) -> u32 {
    (x.wrapping_mul(73856093i32) ^ z.wrapping_mul(19349663i32)) as u32
}

/// Hash of a sky cell.
pub fn star_cell_hash(x: i32, z: i32) -> (h: u32)
    ensures
        h == spec_star_hash(x, z),
{
    (x.wrapping_mul(73856093i32) ^ z.wrapping_mul(19349663i32)) as u32
}

/// Whether a hashed sky cell holds a star: the low decimal digits land in
/// the top two percent.
pub open spec fn spec_star_present(h: u32) -> bool {
    h % 1000 >= 980
}

/// Whether the cell hashed to `h` holds a star.
pub fn star_present(h: u32) -> (r: bool)
    ensures
        r == spec_star_present(h),
{
    h % 1000 >= 980
}

/// The brightness level of a star, `0` through `99`, drawn from the high
/// bits of its cell hash; the caller maps it to the visible range.
pub open spec fn spec_star_level(h: u32) -> u32 {
    (h >> 16u32) % 100
}

/// Brightness level of the star in the cell hashed to `h`.
pub fn star_level(h: u32) -> (r: u32)
    ensures
        r == spec_star_level(h),
{
    (h >> 16u32) % 100
}

} // verus!
