use voxel_rt::kinds::{BlockKind, WaterMode};
use voxel_rt::shading::{
    alpha_is_cutout, reflected_hit_is_sky, reflection_source, shadow_response, texture_slot,
    traversal_passes, ReflectionSource, ShadowResponse, TexSlot,
};

#[test]
fn grass_faces_pick_top_bottom_and_side() {
    assert_eq!(texture_slot(BlockKind::Grass, 3), TexSlot::GrassTop);
    assert_eq!(texture_slot(BlockKind::Grass, 2), TexSlot::Dirt);
    for face in [0u8, 1, 4, 5] {
        assert_eq!(texture_slot(BlockKind::Grass, face), TexSlot::GrassSide);
    }
}

#[test]
fn log_faces_pick_top_and_side() {
    assert_eq!(texture_slot(BlockKind::Log, 2), TexSlot::LogTop);
    assert_eq!(texture_slot(BlockKind::Log, 3), TexSlot::LogTop);
    for face in [0u8, 1, 4, 5] {
        assert_eq!(texture_slot(BlockKind::Log, face), TexSlot::LogSide);
    }
}

#[test]
fn uniform_kinds_use_one_slot() {
    for face in 0u8..6 {
        assert_eq!(texture_slot(BlockKind::Dirt, face), TexSlot::Dirt);
        assert_eq!(texture_slot(BlockKind::Stone, face), TexSlot::Stone);
        assert_eq!(texture_slot(BlockKind::Leaves, face), TexSlot::Leaves);
        assert_eq!(texture_slot(BlockKind::Water, face), TexSlot::Water);
    }
}

#[test]
fn cutout_threshold_is_a_tenth() {
    assert!(alpha_is_cutout(0));
    assert!(alpha_is_cutout(25));
    assert!(!alpha_is_cutout(26));
    assert!(!alpha_is_cutout(255));
}

#[test]
fn only_transparent_leaves_pass_rays() {
    // A fully transparent leaf texel lets both visibility and shadow rays
    // continue to whatever lies behind it.
    assert!(traversal_passes(BlockKind::Leaves, 0));
    assert!(traversal_passes(BlockKind::Leaves, 25));
    assert!(!traversal_passes(BlockKind::Leaves, 26));
    assert!(!traversal_passes(BlockKind::Stone, 0));
    assert!(!traversal_passes(BlockKind::Water, 0));
}

#[test]
fn shadow_rules_per_kind() {
    assert_eq!(shadow_response(BlockKind::Water), ShadowResponse::Passes);
    assert_eq!(shadow_response(BlockKind::Leaves), ShadowResponse::Dithered);
    assert_eq!(shadow_response(BlockKind::Grass), ShadowResponse::Blocks);
    assert_eq!(shadow_response(BlockKind::Dirt), ShadowResponse::Blocks);
    assert_eq!(shadow_response(BlockKind::Stone), ShadowResponse::Blocks);
    assert_eq!(shadow_response(BlockKind::Log), ShadowResponse::Blocks);
}

#[test]
fn water_mode_off_reflects_black() {
    // Whatever the Fresnel weight multiplies, the reflected color source
    // for the Off mode is black.
    assert_eq!(reflection_source(WaterMode::Off), ReflectionSource::Black);
}

#[test]
fn water_mode_sky_only_reflects_sky() {
    assert_eq!(reflection_source(WaterMode::SkyOnly), ReflectionSource::Sky);
}

#[test]
fn water_mode_reflect_once_traces() {
    assert_eq!(reflection_source(WaterMode::ReflectOnce), ReflectionSource::TraceScene);
}

#[test]
fn second_water_hit_shades_as_sky() {
    assert!(reflected_hit_is_sky(BlockKind::Water));
    assert!(!reflected_hit_is_sky(BlockKind::Grass));
    assert!(!reflected_hit_is_sky(BlockKind::Leaves));
}
