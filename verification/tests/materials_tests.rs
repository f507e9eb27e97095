use voxel_rt::kinds::BlockKind;
use voxel_rt::materials::{make_checkerboard, texture_from_bytes, Materials, Texture};
use voxel_rt::shading::TexSlot;

fn solid(w: u32, h: u32, rgba: [u8; 4]) -> Texture {
    let mut data = Vec::new();
    for _ in 0..(w * h) {
        data.extend_from_slice(&rgba);
    }
    texture_from_bytes(w, h, data).unwrap()
}

fn mats() -> Materials {
    Materials {
        grass_top: solid(2, 2, [10, 200, 10, 255]),
        grass_side: solid(2, 2, [90, 140, 60, 255]),
        dirt: solid(2, 2, [120, 80, 40, 255]),
        stone: solid(2, 2, [128, 128, 128, 255]),
        log_side: solid(2, 2, [100, 70, 30, 255]),
        log_top: solid(2, 2, [160, 130, 80, 255]),
        leaves: solid(2, 2, [20, 120, 20, 0]),
        water: solid(2, 2, [30, 60, 200, 100]),
    }
}

#[test]
fn from_bytes_needs_enough_bytes() {
    assert!(texture_from_bytes(2, 2, vec![0u8; 16]).is_some());
    assert!(texture_from_bytes(2, 2, vec![0u8; 15]).is_none());
}

#[test]
fn texels_read_back_row_major() {
    let bytes = vec![
        1, 2, 3, 4, // (0, 0)
        5, 6, 7, 8, // (1, 0)
        9, 10, 11, 12, // (0, 1)
        13, 14, 15, 16, // (1, 1)
    ];
    let tex = texture_from_bytes(2, 2, bytes).unwrap();
    let m = Materials {
        stone: tex,
        grass_top: solid(1, 1, [0, 0, 0, 255]),
        grass_side: solid(1, 1, [0, 0, 0, 255]),
        dirt: solid(1, 1, [0, 0, 0, 255]),
        log_side: solid(1, 1, [0, 0, 0, 255]),
        log_top: solid(1, 1, [0, 0, 0, 255]),
        leaves: solid(1, 1, [0, 0, 0, 255]),
        water: solid(1, 1, [0, 0, 0, 255]),
    };
    assert_eq!(m.sample_texel(BlockKind::Stone, 0, 0, 0), Some((1, 2, 3, 4)));
    assert_eq!(m.sample_texel(BlockKind::Stone, 0, 1, 0), Some((5, 6, 7, 8)));
    assert_eq!(m.sample_texel(BlockKind::Stone, 0, 0, 1), Some((9, 10, 11, 12)));
    assert_eq!(m.sample_texel(BlockKind::Stone, 0, 1, 1), Some((13, 14, 15, 16)));
    assert_eq!(m.sample_texel(BlockKind::Stone, 0, 2, 0), None);
    assert_eq!(m.sample_texel(BlockKind::Stone, 0, 0, 2), None);
}

#[test]
fn grass_top_face_samples_grass_top_texture() {
    // Looking straight down at a grass block, the lit +Y face must sample
    // the grass-top texture, not a side or bottom one.
    let m = mats();
    assert_eq!(m.sample_texel(BlockKind::Grass, 3, 0, 0), Some((10, 200, 10, 255)));
    assert_eq!(m.sample_texel(BlockKind::Grass, 2, 0, 0), Some((120, 80, 40, 255)));
    assert_eq!(m.sample_texel(BlockKind::Grass, 0, 0, 0), Some((90, 140, 60, 255)));
    assert_eq!(m.sample_texel(BlockKind::Log, 3, 0, 0), Some((160, 130, 80, 255)));
    assert_eq!(m.sample_texel(BlockKind::Log, 5, 0, 0), Some((100, 70, 30, 255)));
}

#[test]
fn transparent_leaf_texel_is_cutout() {
    // The leaves texture above carries alpha zero: the sampled texel is
    // below the cutout threshold, so rays pass through the block there.
    let m = mats();
    let (_, _, _, a) = m.sample_texel(BlockKind::Leaves, 0, 0, 0).unwrap();
    assert!(voxel_rt::shading::alpha_is_cutout(a));
    assert!(voxel_rt::shading::traversal_passes(BlockKind::Leaves, a));
}

#[test]
fn slot_dims_report_texture_size() {
    let m = mats();
    assert_eq!(m.slot_dims(TexSlot::GrassTop), (2, 2));
}

#[test]
fn checkerboard_pattern_and_opacity() {
    let m = Materials {
        stone: make_checkerboard(4, 2),
        grass_top: solid(1, 1, [0, 0, 0, 255]),
        grass_side: solid(1, 1, [0, 0, 0, 255]),
        dirt: solid(1, 1, [0, 0, 0, 255]),
        log_side: solid(1, 1, [0, 0, 0, 255]),
        log_top: solid(1, 1, [0, 0, 0, 255]),
        leaves: solid(1, 1, [0, 0, 0, 255]),
        water: solid(1, 1, [0, 0, 0, 255]),
    };
    assert_eq!(m.sample_texel(BlockKind::Stone, 0, 0, 0), Some((40, 40, 40, 255)));
    assert_eq!(m.sample_texel(BlockKind::Stone, 0, 2, 0), Some((210, 210, 210, 255)));
    assert_eq!(m.sample_texel(BlockKind::Stone, 0, 0, 2), Some((210, 210, 210, 255)));
    assert_eq!(m.sample_texel(BlockKind::Stone, 0, 2, 2), Some((40, 40, 40, 255)));
    assert_eq!(m.sample_texel(BlockKind::Stone, 0, 1, 0), Some((40, 40, 40, 255)));
    assert_eq!(m.sample_texel(BlockKind::Stone, 0, 3, 1), Some((210, 210, 210, 255)));
}
