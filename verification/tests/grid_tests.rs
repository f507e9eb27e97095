use voxel_rt::grid::build_grid;
use voxel_rt::kinds::BlockKind;
use voxel_rt::world::Block;

fn b(x: i32, y: i32, z: i32, kind: BlockKind) -> Block {
    Block { x, y, z, kind }
}

#[test]
fn empty_scene_builds_one_empty_layer() {
    let g = build_grid(&Vec::new(), 4, 4);
    assert_eq!((g.w, g.h, g.d, g.base_y), (4, 1, 4, 0));
    for x in 0..4 {
        for z in 0..4 {
            assert_eq!(g.kind_at(x, 0, z), None);
        }
    }
}

#[test]
fn single_cell_grid_matches_direct_test() {
    // A one-by-one-by-one grid with its single cell occupied reports the
    // block exactly where the direct box test sees it.
    let g = build_grid(&vec![b(0, 0, 0, BlockKind::Grass)], 1, 1);
    assert_eq!((g.w, g.h, g.d, g.base_y), (1, 1, 1, 0));
    assert_eq!(g.kind_at(0, 0, 0), Some(BlockKind::Grass));
    assert_eq!(g.kind_at(1, 0, 0), None);
    assert_eq!(g.kind_at(0, 1, 0), None);
    assert_eq!(g.kind_at(-1, 0, 0), None);
}

#[test]
fn height_spans_block_y_range() {
    let blocks = vec![b(0, 2, 0, BlockKind::Dirt), b(1, 4, 1, BlockKind::Stone)];
    let g = build_grid(&blocks, 2, 2);
    assert_eq!((g.h, g.base_y), (3, 2));
    assert_eq!(g.kind_at(0, 0, 0), Some(BlockKind::Dirt));
    assert_eq!(g.kind_at(1, 2, 1), Some(BlockKind::Stone));
    assert_eq!(g.kind_at(0, 1, 0), None);
}

#[test]
fn later_block_overwrites_same_cell() {
    let blocks = vec![b(1, 0, 1, BlockKind::Dirt), b(1, 0, 1, BlockKind::Water)];
    let g = build_grid(&blocks, 2, 2);
    assert_eq!(g.kind_at(1, 0, 1), Some(BlockKind::Water));
}

#[test]
fn out_of_range_blocks_are_clamped() {
    let blocks = vec![b(-7, 0, 9, BlockKind::Log)];
    let g = build_grid(&blocks, 3, 3);
    assert_eq!(g.kind_at(0, 0, 2), Some(BlockKind::Log));
}

#[test]
fn cells_between_blocks_stay_empty() {
    let blocks = vec![b(0, 0, 0, BlockKind::Grass), b(2, 0, 2, BlockKind::Stone)];
    let g = build_grid(&blocks, 3, 3);
    assert_eq!(g.kind_at(1, 0, 1), None);
    assert_eq!(g.kind_at(2, 0, 2), Some(BlockKind::Stone));
}
