//! Discrete shading rules: which texture a hit samples, when a cutout
//! texel lets a ray through, what blocks a shadow ray, and where the water
//! reflection draws its color from.

use vstd::prelude::*;

verus! {

use crate::kinds::{BlockKind, WaterMode};

/// The texture slots of a material set.
#[derive(Clone, Copy, Debug, PartialEq, Eq, Structural)]
pub enum TexSlot {
    GrassTop,
    GrassSide,
    Dirt,
    Stone,
    LogTop,
    LogSide,
    Leaves,
    Water,
}

/// The slot a hit samples: grass shows its top texture on `+Y` (face `3`),
/// dirt on `-Y` (face `2`) and its side texture elsewhere; logs show their
/// top texture on both `Y` faces; every other kind uses one texture on all
/// faces.
pub open spec fn spec_texture_slot(kind: BlockKind, face: u8) -> TexSlot {
    match kind {
        BlockKind::Grass => if face == 3 {
            TexSlot::GrassTop
        } else if face == 2 {
            TexSlot::Dirt
        } else {
            TexSlot::GrassSide
        },
        BlockKind::Dirt => TexSlot::Dirt,
        BlockKind::Stone => TexSlot::Stone,
        BlockKind::Log => if face == 2 || face == 3 {
            TexSlot::LogTop
        } else {
            TexSlot::LogSide
        },
        BlockKind::Leaves => TexSlot::Leaves,
        BlockKind::Water => TexSlot::Water,
    }
}

/// The texture slot a hit on `face` of a `kind` block samples.
pub fn texture_slot(kind: BlockKind, face: u8) -> (s: TexSlot)
    ensures
        s == spec_texture_slot(kind, face),
{
    match kind {
        BlockKind::Grass => {
            if face == 3 {
                TexSlot::GrassTop
            } else if face == 2 {
                TexSlot::Dirt
            } else {
                TexSlot::GrassSide
            }
        },
        BlockKind::Dirt => TexSlot::Dirt,
        BlockKind::Stone => TexSlot::Stone,
        BlockKind::Log => {
            if face == 2 || face == 3 {
                TexSlot::LogTop
            } else {
                TexSlot::LogSide
            }
        },
        BlockKind::Leaves => TexSlot::Leaves,
        BlockKind::Water => TexSlot::Water,
    }
}

/// The cutout threshold on a texel's alpha byte: coverage below one tenth
/// (alpha byte `0` through `25`) lets rays pass.
pub open spec fn spec_alpha_cutout(alpha: u8) -> bool {
    alpha < 26
}

/// Whether a texel with this alpha byte is a hole that visibility and
/// shadow rays pass through.
pub fn alpha_is_cutout(alpha: u8) -> (r: bool)
    ensures
        r == spec_alpha_cutout(alpha),
{
    alpha < 26
}

/// Whether a foliage cell lets the traversal pass: only leaves are cutout,
/// and only where the sampled texel's alpha is below the threshold.
pub open spec fn spec_traversal_passes(kind: BlockKind, alpha: u8) -> bool {
    kind == BlockKind::Leaves && spec_alpha_cutout(alpha)
}

/// Whether the traversal passes through an occupied cell of `kind` whose
/// hit texel has this alpha byte, instead of stopping with a hit.
pub fn traversal_passes(kind: BlockKind, alpha: u8) -> (r: bool)
    ensures
        r == spec_traversal_passes(kind, alpha),
{
    match kind {
        BlockKind::Leaves => alpha_is_cutout(alpha),
        _ => false,
    }
}

/// What a material hit by a shadow ray does to the light.
#[derive(Clone, Copy, Debug, PartialEq, Eq, Structural)]
pub enum ShadowResponse {
    /// The hit shadows the point.
    Blocks,
    /// The hit never shadows: water lets light through.
    Passes,
    /// Leaves shadow per texel: the caller compares the texel's coverage
    /// against a stable dither threshold.
    Dithered,
}

/// The shadow rule of a material: water never blocks, leaves dither, every
/// other kind blocks.
pub open spec fn spec_shadow_response(kind: BlockKind) -> ShadowResponse {
    match kind {
        BlockKind::Water => ShadowResponse::Passes,
        BlockKind::Leaves => ShadowResponse::Dithered,
        _ => ShadowResponse::Blocks,
    }
}

/// How a block of `kind`, hit by a shadow ray before the light, affects
/// the shadow test.
pub fn shadow_response(kind: BlockKind) -> (r: ShadowResponse)
    ensures
        r == spec_shadow_response(kind),
{
    match kind {
        BlockKind::Water => ShadowResponse::Passes,
        BlockKind::Leaves => ShadowResponse::Dithered,
        _ => ShadowResponse::Blocks,
    }
}

/// Where the reflected term of water shading comes from.
#[derive(Clone, Copy, Debug, PartialEq, Eq, Structural)]
pub enum ReflectionSource {
    /// No reflection: the reflected color is black, whatever the Fresnel
    /// weight.
    Black,
    /// The procedural sky, sampled along the mirrored direction.
    Sky,
    /// One traced ray into the scene; never more than one.
    TraceScene,
}

/// The reflection source of each water mode.
pub open spec fn spec_reflection_source(mode: WaterMode) -> ReflectionSource {
    match mode {
        WaterMode::Off => ReflectionSource::Black,
        WaterMode::SkyOnly => ReflectionSource::Sky,
        WaterMode::ReflectOnce => ReflectionSource::TraceScene,
    }
}

/// The source of the reflected color for `mode`: `Off` reflects black,
/// `SkyOnly` the sky, `ReflectOnce` one traced ray.
pub fn reflection_source(mode: WaterMode) -> (r: ReflectionSource)
    ensures
        r == spec_reflection_source(mode),
{
    match mode {
        WaterMode::Off => ReflectionSource::Black,
        WaterMode::SkyOnly => ReflectionSource::Sky,
        WaterMode::ReflectOnce => ReflectionSource::TraceScene,
    }
}

/// The structural one-bounce rule of `ReflectOnce`: a reflected ray that
/// hits water again shades it as sky instead of reflecting a second time.
pub fn reflected_hit_is_sky(kind: BlockKind) -> (r: bool)
    ensures
        r == (kind == BlockKind::Water),
{
    match kind {
        BlockKind::Water => true,
        _ => false,
    }
}

} // verus!
