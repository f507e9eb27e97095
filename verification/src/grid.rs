//! The dense voxel grid a frame renders from: cells derived from the block
//! list once per frame, and the cell reads of the grid traversal.

use vstd::prelude::*;

verus! {

use crate::kinds::{spec_code_kind, spec_kind_code, u8_to_kind, kind_to_u8, BlockKind};
use crate::world::Block;

/// `v` forced into `[lo, hi]`.
pub open spec fn spec_clamp(v: int, lo: int, hi: int) -> int {
    if v < lo {
        lo
    } else if v > hi {
        hi
    } else {
        v
    }
}

/// The least block `y`, `0` when there is no block.
pub open spec fn spec_min_y(blocks: Seq<Block>) -> int
    decreases blocks.len(),
{
    if blocks.len() == 0 {
        0
    } else if blocks.len() == 1 {
        blocks[0].y as int
    } else if (blocks.last().y as int) < spec_min_y(blocks.drop_last()) {
        blocks.last().y as int
    } else {
        spec_min_y(blocks.drop_last())
    }
}

/// The greatest block `y`, `0` when there is no block.
pub open spec fn spec_max_y(blocks: Seq<Block>) -> int
    decreases blocks.len(),
{
    if blocks.len() == 0 {
        0
    } else if blocks.len() == 1 {
        blocks[0].y as int
    } else if (blocks.last().y as int) > spec_max_y(blocks.drop_last()) {
        blocks.last().y as int
    } else {
        spec_max_y(blocks.drop_last())
    }
}

/// The cell `y` of the grid's bottom layer: the least block `y`.
pub open spec fn spec_grid_base(blocks: Seq<Block>) -> int {
    if blocks.len() == 0 {
        0
    } else {
        spec_min_y(blocks)
    }
}

/// Number of layers the grid spans; at least one, also for an empty scene.
pub open spec fn spec_grid_height(blocks: Seq<Block>) -> int {
    if blocks.len() == 0 {
        1
    } else {
        spec_max_y(blocks) - spec_min_y(blocks) + 1
    }
}

/// The grid cell a block is stamped into: its cell coordinates, with `y`
/// made relative to the grid base, each axis clamped to the grid bounds.
pub open spec fn spec_block_cell(b: Block, w: int, d: int, base_y: int, h: int) -> (int, int, int) {
    (
        spec_clamp(b.x as int, 0, w - 1),
        spec_clamp(b.y as int - base_y, 0, h - 1),
        spec_clamp(b.z as int, 0, d - 1),
    )
}

/// The code a cell holds after all blocks are stamped in order: the code of
/// the last block mapped to the cell, or `0` when none is. A later block
/// overwrites an earlier one in the same cell.
pub open spec fn spec_stamped(
    blocks: Seq<Block>,
    w: int,
    d: int,
    base_y: int,
    h: int,
    x: int,
    y: int,
    z: int,
) -> u8
    decreases blocks.len(),
{
    if blocks.len() == 0 {
        0u8
    } else if spec_block_cell(blocks.last(), w, d, base_y, h) == (x, y, z) {
        spec_kind_code(blocks.last().kind)
    } else {
        spec_stamped(blocks.drop_last(), w, d, base_y, h, x, y, z)
    }
}

/// A dense voxel grid of `w * h * d` cells, cell size one, layer-major.
/// Cell `(x, y, z)` spans world cell `(x, base_y + y, z)`.
pub struct VoxelGrid {
    pub w: usize,
    pub h: usize,
    pub d: usize,
    pub base_y: i32,
    pub data: Vec<u8>,
}

impl VoxelGrid {
    /// The backing array covers every cell exactly once.
    pub open spec fn wf(self) -> bool {
        &&& self.w >= 1
        &&& self.d >= 1
        &&& self.h >= 1
        &&& self.w * self.h * self.d <= usize::MAX
        &&& self.data@.len() == self.w * self.h * self.d
    }

    /// The code held by cell `(x, y, z)`.
    pub open spec fn spec_cell(self, x: int, y: int, z: int) -> u8 {
        self.data@[y * (self.w * self.d) + z * self.w + x]
    }

    /// The kind visible at grid cell `(x, y, z)`: `None` outside the grid
    /// and for empty cells.
    pub open spec fn spec_kind_at(self, x: int, y: int, z: int) -> Option<BlockKind> {
        if 0 <= x < self.w && 0 <= y < self.h && 0 <= z < self.d {
            spec_code_kind(self.spec_cell(x, y, z))
        } else {
            None
        }
    }

    /// The code of cell `(x, y, z)`.
    pub fn cell_code(&self, x: usize, y: usize, z: usize) -> (c: u8)
        requires
            self.wf(),
            x < self.w,
            y < self.h,
            z < self.d,
        ensures
            c == self.spec_cell(x as int, y as int, z as int),
    {
        proof {
            assert(self.w * self.d <= self.w * self.h * self.d && y * (self.w * self.d) + z
                * self.w + x < self.w * self.h * self.d) by (nonlinear_arith)
                requires
                    x < self.w,
                    y < self.h,
                    z < self.d,
                    1 <= self.h,
            ;
        }
        let wd: usize = self.w * self.d;
        self.data[y * wd + z * self.w + x]
    }

    /// The kind at a traversal position, `None` outside the grid and for
    /// empty cells. Positions may lie outside: the traversal steps past the
    /// border before it stops.
    pub fn kind_at(&self, x: i32, y: i32, z: i32) -> (k: Option<BlockKind>)
        requires
            self.wf(),
            self.w <= 0x7fff_ffff,
            self.h <= 0x7fff_ffff,
            self.d <= 0x7fff_ffff,
        ensures
            k == self.spec_kind_at(x as int, y as int, z as int),
    {
        if x < 0 || y < 0 || z < 0 {
            return None;
        }
        let xu = x as usize;
        let yu = y as usize;
        let zu = z as usize;
        if xu >= self.w || yu >= self.h || zu >= self.d {
            return None;
        }
        u8_to_kind(self.cell_code(xu, yu, zu))
    }
}

/// Builds the voxel grid of a frame from its block list.
///
/// The horizontal extent is fixed by the caller; the vertical extent spans
/// the blocks' `y` range. Every block is stamped into its cell, clamped to
/// the grid bounds; when two blocks map to one cell, the later silently
/// overwrites the earlier. An empty block list yields one all-empty layer.
#[verifier::rlimit(30)]
pub fn build_grid(blocks: &Vec<Block>, w: usize, d: usize) -> (g: VoxelGrid)
    requires
        1 <= w <= 0x7fff_ffff,
        1 <= d <= 0x7fff_ffff,
        spec_grid_height(blocks@) * (w * d) <= usize::MAX,
    ensures
        g.wf(),
        g.w == w,
        g.d == d,
        g.base_y == spec_grid_base(blocks@),
        g.h == spec_grid_height(blocks@),
        forall|x: int, y: int, z: int|
            0 <= x < w && 0 <= y < g.h && 0 <= z < d ==> #[trigger] g.spec_cell(x, y, z)
                == spec_stamped(blocks@, w as int, d as int, g.base_y as int, g.h as int, x, y, z),
{
    let mut min_y: i32 = 0;
    let mut max_y: i32 = 0;
    if blocks.len() > 0 {
        min_y = blocks[0].y;
        max_y = blocks[0].y;
        let mut i: usize = 1;
        while i < blocks.len()
            invariant
                1 <= i <= blocks@.len(),
                min_y == spec_min_y(blocks@.take(i as int)),
                max_y == spec_max_y(blocks@.take(i as int)),
            decreases blocks@.len() - i,
        {
            let b = blocks[i];
            proof {
                assert(blocks@.take(i as int + 1).drop_last() =~= blocks@.take(i as int));
                assert(blocks@.take(i as int + 1).last() == blocks@[i as int]);
            }
            if b.y < min_y {
                min_y = b.y;
            }
            if b.y > max_y {
                max_y = b.y;
            }
            i = i + 1;
        }
        proof {
            assert(blocks@.take(blocks@.len() as int) =~= blocks@);
        }
    }
    let ghost base = spec_grid_base(blocks@);
    let ghost height = spec_grid_height(blocks@);
    proof {
        assert(blocks@.len() > 0 ==> min_y as int == spec_min_y(blocks@) && max_y as int
            == spec_max_y(blocks@));
        lemma_min_le_max(blocks@);
    }
    let h64: i64 = if blocks.len() > 0 {
        (max_y as i64) - (min_y as i64) + 1
    } else {
        1
    };
    proof {
        assert(h64 == height);
        assert(height <= height * (w * d) && w * d <= height * (w * d)) by (nonlinear_arith)
            requires
                w >= 1,
                d >= 1,
                height >= 1,
        ;
    }
    proof {
        assert(1 <= h64 <= 0x1_0000_0000);
    }
    let h: usize = h64 as usize;
    let wd: usize = w * d;
    let total: usize = h * wd;
    let mut data: Vec<u8> = Vec::new();
    while data.len() < total
        invariant
            data@.len() <= total,
            forall|j: int| 0 <= j < data@.len() ==> data@[j] == 0u8,
        decreases total - data@.len(),
    {
        data.push(0u8);
    }
    let mut g = VoxelGrid { w, h, d, base_y: min_y, data };
    proof {
        assert(h * (w * d) == w * h * d) by (nonlinear_arith);
        assert(g.wf());
        assert forall|x: int, y: int, z: int|
            0 <= x < w && 0 <= y < h && 0 <= z < d implies #[trigger] g.spec_cell(x, y, z)
            == 0u8 by {
            assert(0 <= y * (w * d) + z * w + x < total) by (nonlinear_arith)
                requires
                    total == h * (w * d),
                    0 <= x < w,
                    0 <= y < h,
                    0 <= z < d,
            ;
        }
        assert(blocks@.take(0) =~= Seq::<Block>::empty());
    }
    let mut i: usize = 0;
    while i < blocks.len()
        invariant
            i <= blocks@.len(),
            g.wf(),
            g.w == w,
            g.d == d,
            g.h == h,
            g.base_y == min_y,
            base == spec_grid_base(blocks@),
            height == spec_grid_height(blocks@),
            min_y as int == base,
            h as int == height,
            h <= 0x1_0000_0000,
            w * d <= usize::MAX,
            h * (w * d) <= usize::MAX,
            1 <= w <= 0x7fff_ffff,
            1 <= d <= 0x7fff_ffff,
            forall|x: int, y: int, z: int|
                0 <= x < w && 0 <= y < h && 0 <= z < d ==> #[trigger] g.spec_cell(x, y, z)
                    == spec_stamped(
                    blocks@.take(i as int),
                    w as int,
                    d as int,
                    base,
                    h as int,
                    x,
                    y,
                    z,
                ),
        decreases blocks@.len() - i,
    {
        let ghost old_g = g;
        let b = blocks[i];
        let bx: i32 = b.x;
        let bz: i32 = b.z;
        let ix: usize = if bx < 0 {
            0
        } else if bx as usize > w - 1 {
            w - 1
        } else {
            bx as usize
        };
        let iz: usize = if bz < 0 {
            0
        } else if bz as usize > d - 1 {
            d - 1
        } else {
            bz as usize
        };
        let dy: i64 = (b.y as i64) - (min_y as i64);
        let iy: usize = if dy < 0 {
            0
        } else if dy > (h as i64) - 1 {
            h - 1
        } else {
            dy as usize
        };
        proof {
            assert((ix as int, iy as int, iz as int) == spec_block_cell(
                b,
                w as int,
                d as int,
                base,
                h as int,
            ));
            assert(iy * (w * d) + iz * w + ix < h * (w * d)) by (nonlinear_arith)
                requires
                    ix < w,
                    iy < h,
                    iz < d,
            ;
            assert(h * (w * d) == w * h * d) by (nonlinear_arith);
        }
        let idx: usize = iy * (w * d) + iz * w + ix;
        let code = kind_to_u8(b.kind);
        g.data.set(idx, code);
        proof {
            assert(blocks@.take(i as int + 1).drop_last() =~= blocks@.take(i as int));
            assert(blocks@.take(i as int + 1).last() == b);
            assert forall|x: int, y: int, z: int|
                0 <= x < w && 0 <= y < h && 0 <= z < d implies #[trigger] g.spec_cell(x, y, z)
                == spec_stamped(
                blocks@.take(i as int + 1),
                w as int,
                d as int,
                base,
                h as int,
                x,
                y,
                z,
            ) by {
                assert(y * (w * d) + z * w + x < h * (w * d)) by (nonlinear_arith)
                    requires
                        0 <= x < w,
                        0 <= y < h,
                        0 <= z < d,
                ;
                lemma_cell_index_injective(
                    w as int,
                    d as int,
                    h as int,
                    x,
                    y,
                    z,
                    ix as int,
                    iy as int,
                    iz as int,
                );
                if (x, y, z) != (ix as int, iy as int, iz as int) {
                    assert(g.spec_cell(x, y, z) == old_g.spec_cell(x, y, z));
                }
            }
        }
        i = i + 1;
    }
    proof {
        assert(blocks@.take(blocks@.len() as int) =~= blocks@);
    }
    g
}

/// The least block `y` never exceeds the greatest.
pub proof fn lemma_min_le_max(blocks: Seq<Block>)
    ensures
        blocks.len() > 0 ==> spec_min_y(blocks) <= spec_max_y(blocks),
    decreases blocks.len(),
{
    if blocks.len() > 1 {
        lemma_min_le_max(blocks.drop_last());
    }
}

/// On a block list whose cells lie inside the grid and never collide,
/// stamping is exact in one direction: each block's own cell holds that
/// block's kind. Together with `lemma_stamped_misses_empty` this says the
/// grid holds exactly the blocks, so reading the grid along a ray and
/// testing every block's box directly agree on which cells are solid.
pub proof fn lemma_stamped_finds_block(
    blocks: Seq<Block>,
    w: int,
    d: int,
    base_y: int,
    h: int,
    i: int,
)
    requires
        forall|j: int|
            0 <= j < blocks.len() ==> 0 <= (#[trigger] blocks[j]).x < w && 0 <= blocks[j].y
                - base_y < h && 0 <= blocks[j].z < d,
        forall|j: int, k: int|
            #![trigger blocks[j], blocks[k]]
            0 <= j < k < blocks.len() ==> !(blocks[j].x == blocks[k].x && blocks[j].y
                == blocks[k].y && blocks[j].z == blocks[k].z),
        0 <= i < blocks.len(),
    ensures
        spec_stamped(
            blocks,
            w,
            d,
            base_y,
            h,
            blocks[i].x as int,
            blocks[i].y - base_y,
            blocks[i].z as int,
        ) == spec_kind_code(blocks[i].kind),
    decreases blocks.len(),
{
    let last = blocks.last();
    assert(spec_block_cell(last, w, d, base_y, h) == (
        last.x as int,
        last.y - base_y,
        last.z as int,
    ));
    if i == blocks.len() - 1 {
    } else {
        assert(blocks.drop_last()[i] == blocks[i]);
        lemma_stamped_finds_block(blocks.drop_last(), w, d, base_y, h, i);
    }
}

/// On a block list whose cells lie inside the grid, a cell no block maps
/// to stays empty.
pub proof fn lemma_stamped_misses_empty(
    blocks: Seq<Block>,
    w: int,
    d: int,
    base_y: int,
    h: int,
    x: int,
    y: int,
    z: int,
)
    requires
        forall|j: int|
            0 <= j < blocks.len() ==> 0 <= (#[trigger] blocks[j]).x < w && 0 <= blocks[j].y
                - base_y < h && 0 <= blocks[j].z < d,
        forall|j: int|
            0 <= j < blocks.len() ==> !((#[trigger] blocks[j]).x == x && blocks[j].y - base_y == y
                && blocks[j].z == z),
    ensures
        spec_stamped(blocks, w, d, base_y, h, x, y, z) == 0,
    decreases blocks.len(),
{
    if blocks.len() > 0 {
        let last = blocks.last();
        assert(spec_block_cell(last, w, d, base_y, h) == (
            last.x as int,
            last.y - base_y,
            last.z as int,
        ));
        lemma_stamped_misses_empty(blocks.drop_last(), w, d, base_y, h, x, y, z);
    }
}

/// Every block's `y` lies between the least and the greatest.
pub proof fn lemma_y_within_range(blocks: Seq<Block>, i: int)
    requires
        0 <= i < blocks.len(),
    ensures
        spec_min_y(blocks) <= blocks[i].y as int <= spec_max_y(blocks),
    decreases blocks.len(),
{
    if blocks.len() > 1 && i < blocks.len() - 1 {
        assert(blocks.drop_last()[i] == blocks[i]);
        lemma_y_within_range(blocks.drop_last(), i);
    }
}

/// A block list with pairwise distinct cells, horizontally inside a
/// `w` by `d` grid, builds an exact grid: with the grid's own base and
/// height, every block is found at its cell and every cell no block maps
/// to is empty. This is what lets the grid traversal stand in for testing
/// every block's box directly: both see the same solid cells.
pub proof fn lemma_grid_exact_for_distinct_blocks(blocks: Seq<Block>, w: int, d: int, i: int)
    requires
        forall|j: int|
            0 <= j < blocks.len() ==> 0 <= (#[trigger] blocks[j]).x < w && 0 <= blocks[j].z < d,
        forall|j: int, k: int|
            #![trigger blocks[j], blocks[k]]
            0 <= j < k < blocks.len() ==> !(blocks[j].x == blocks[k].x && blocks[j].y
                == blocks[k].y && blocks[j].z == blocks[k].z),
        0 <= i < blocks.len(),
    ensures
        spec_stamped(
            blocks,
            w,
            d,
            spec_grid_base(blocks),
            spec_grid_height(blocks),
            blocks[i].x as int,
            blocks[i].y - spec_grid_base(blocks),
            blocks[i].z as int,
        ) == spec_kind_code(blocks[i].kind),
{
    let base = spec_grid_base(blocks);
    let h = spec_grid_height(blocks);
    assert forall|j: int| 0 <= j < blocks.len() implies 0 <= (#[trigger] blocks[j]).y - base
        < h by {
        lemma_y_within_range(blocks, j);
    }
    lemma_stamped_finds_block(blocks, w, d, base, h, i);
}

/// Two distinct in-bounds cells have distinct backing indices.
proof fn lemma_cell_index_injective(
    w: int,
    d: int,
    h: int,
    x1: int,
    y1: int,
    z1: int,
    x2: int,
    y2: int,
    z2: int,
)
    requires
        0 <= x1 < w,
        0 <= y1 < h,
        0 <= z1 < d,
        0 <= x2 < w,
        0 <= y2 < h,
        0 <= z2 < d,
    ensures
        (y1 * (w * d) + z1 * w + x1 == y2 * (w * d) + z2 * w + x2) <==> (x1 == x2 && y1 == y2 && z1
            == z2),
{
    assert((y1 * (w * d) + z1 * w + x1 == y2 * (w * d) + z2 * w + x2) <==> (x1 == x2 && y1 == y2
        && z1 == z2)) by (nonlinear_arith)
        requires
            0 <= x1 < w,
            0 <= y1 < h,
            0 <= z1 < d,
            0 <= x2 < w,
            0 <= y2 < h,
            0 <= z2 < d,
    ;
}

} // verus!
