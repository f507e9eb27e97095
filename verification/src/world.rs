//! The voxel-layer text format: one ASCII grid per vertical layer, one
//! character per cell, and the surface blocks that a stack of layers yields.

use vstd::prelude::*;

verus! {

use crate::kinds::BlockKind;

/// A solid unit cube, addressed by the voxel cell its center occupies.
///
/// The world positions the cell `(x, y, z)` of a `w * d` horizontal grid at
/// center `(x + 0.5 - w/2, y + 0.5, z + 0.5 - d/2)` with half-extent `0.5`;
/// that conversion is floating point and happens outside the core, which
/// works on the cell coordinates alone.
#[derive(Clone, Copy, Debug, PartialEq, Eq, Structural)]
pub struct Block {
    pub x: i32,
    pub y: i32,
    pub z: i32,
    pub kind: BlockKind,
}

/// The characters a layer file may use for a cell.
pub open spec fn spec_valid_symbol(c: char) -> bool {
    c == 'g' || c == 'G' || c == 'd' || c == 'D' || c == 's' || c == 'S' || c == 'l' || c == 'L'
        || c == 'v' || c == 'V' || c == 'w' || c == 'W' || c == '.' || c == ' '
}

/// Whether `c` is one of the cell characters of the layer format.
pub fn is_valid_symbol(c: char) -> (r: bool)
    ensures
        r == spec_valid_symbol(c),
{
    matches!(c, 'g'|'G'|'d'|'D'|'s'|'S'|'l'|'L'|'v'|'V'|'w'|'W'|'.'|' ')
}

/// The material a cell character denotes; `.` and space denote air, as does
/// any character outside the symbol set.
pub open spec fn spec_symbol_kind(c: char) -> Option<BlockKind> {
    if c == 'g' || c == 'G' {
        Some(BlockKind::Grass)
    } else if c == 'd' || c == 'D' {
        Some(BlockKind::Dirt)
    } else if c == 's' || c == 'S' {
        Some(BlockKind::Stone)
    } else if c == 'l' || c == 'L' {
        Some(BlockKind::Log)
    } else if c == 'v' || c == 'V' {
        Some(BlockKind::Leaves)
    } else if c == 'w' || c == 'W' {
        Some(BlockKind::Water)
    } else {
        None
    }
}

/// Material denoted by a cell character, or `None` for air.
pub fn char_to_kind(c: char) -> (k: Option<BlockKind>)
    ensures
        k == spec_symbol_kind(c),
{
    match c {
        'g' | 'G' => Some(BlockKind::Grass),
        'd' | 'D' => Some(BlockKind::Dirt),
        's' | 'S' => Some(BlockKind::Stone),
        'l' | 'L' => Some(BlockKind::Log),
        'v' | 'V' => Some(BlockKind::Leaves),
        'w' | 'W' => Some(BlockKind::Water),
        _ => None,
    }
}

/// The lines of a text, split at each newline. The empty text is one empty
/// line; a trailing newline yields a trailing empty line.
pub open spec fn spec_split_lines(s: Seq<char>) -> Seq<Seq<char>>
    decreases s.len(),
{
    if s.len() == 0 {
        seq![Seq::<char>::empty()]
    } else if s[0] == '\n' {
        seq![Seq::<char>::empty()] + spec_split_lines(s.drop_first())
    } else {
        let rest = spec_split_lines(s.drop_first());
        seq![seq![s[0]] + rest[0]] + rest.drop_first()
    }
}

/// A split is never empty: there is always a (possibly empty) current line.
pub proof fn lemma_split_lines_nonempty(s: Seq<char>)
    ensures
        spec_split_lines(s).len() >= 1,
    decreases s.len(),
{
    if s.len() != 0 && s[0] != '\n' {
        lemma_split_lines_nonempty(s.drop_first());
    }
}

/// `p` prepended to the first element of a (nonempty) sequence of lines.
pub open spec fn spec_prepend_first(p: Seq<char>, ls: Seq<Seq<char>>) -> Seq<Seq<char>> {
    seq![p + ls[0]] + ls.drop_first()
}

/// Splitting the suffix from position `i` is one step of the recursion on
/// the character at `i`.
proof fn lemma_split_lines_step(s: Seq<char>, i: int)
    requires
        0 <= i < s.len(),
    ensures
        s[i] == '\n' ==> spec_split_lines(s.skip(i)) == seq![Seq::<char>::empty()]
            + spec_split_lines(s.skip(i + 1)),
        s[i] != '\n' ==> spec_split_lines(s.skip(i)) == spec_prepend_first(
            seq![s[i]],
            spec_split_lines(s.skip(i + 1)),
        ),
{
    assert(s.skip(i).len() == s.len() - i);
    assert(s.skip(i)[0] == s[i]);
    assert(s.skip(i).drop_first() =~= s.skip(i + 1));
    if s[i] != '\n' {
        lemma_split_lines_nonempty(s.skip(i + 1));
        let rest = spec_split_lines(s.skip(i + 1));
        assert(spec_split_lines(s.skip(i)) == seq![seq![s[i]] + rest[0]] + rest.drop_first());
    }
}

/// The views of a vector of character vectors.
pub open spec fn spec_views(ls: Seq<Vec<char>>) -> Seq<Seq<char>> {
    ls.map_values(|l: Vec<char>| l@)
}

/// The lines of `s`, split at each newline; no newline appears in the result.
pub fn split_lines(s: &str) -> (lines: Vec<Vec<char>>)
    ensures
        spec_views(lines@) == spec_split_lines(s@),
{
    let n: usize = s.unicode_len();
    let mut lines: Vec<Vec<char>> = Vec::new();
    let mut cur: Vec<char> = Vec::new();
    let mut i: usize = 0;
    proof {
        assert(s@.skip(0) =~= s@);
    }
    while i < n
        invariant
            i <= n,
            n == s@.len(),
            spec_split_lines(s@) == spec_views(lines@) + spec_prepend_first(
                cur@,
                spec_split_lines(s@.skip(i as int)),
            ),
        decreases n - i,
    {
        let ghost old_lines = lines@;
        let ghost old_cur = cur@;
        let c = s.get_char(i);
        proof {
            lemma_split_lines_step(s@, i as int);
            lemma_split_lines_nonempty(s@.skip(i as int + 1));
        }
        if c == '\n' {
            lines.push(cur);
            cur = Vec::new();
            proof {
                let rest = spec_split_lines(s@.skip(i as int + 1));
                assert(spec_views(lines@) =~= spec_views(old_lines).push(old_cur));
                assert(spec_prepend_first(old_cur, seq![Seq::<char>::empty()] + rest) =~= seq![
                    old_cur,
                ] + rest);
                assert(spec_views(old_lines) + (seq![old_cur] + rest) =~= spec_views(lines@)
                    + spec_prepend_first(Seq::<char>::empty(), rest));
            }
        } else {
            cur.push(c);
            proof {
                let rest = spec_split_lines(s@.skip(i as int + 1));
                assert(spec_prepend_first(old_cur, spec_prepend_first(seq![c], rest))
                    =~~= spec_prepend_first(old_cur + seq![c], rest));
                assert(cur@ =~= old_cur + seq![c]);
            }
        }
        i = i + 1;
    }
    proof {
        assert(s@.skip(n as int) =~= Seq::<char>::empty());
        assert(spec_prepend_first(cur@, spec_split_lines(Seq::<char>::empty())) =~= seq![cur@]);
    }
    lines.push(cur);
    proof {
        assert(spec_views(lines@) =~= spec_split_lines(s@));
    }
    lines
}

/// A line without its trailing carriage return, if it has one.
pub open spec fn spec_strip_cr(l: Seq<char>) -> Seq<char> {
    if l.len() > 0 && l[l.len() - 1] == '\r' {
        l.drop_last()
    } else {
        l
    }
}

/// Whether the first character that is not a space or a tab is `#`.
pub open spec fn spec_is_comment(l: Seq<char>) -> bool
    decreases l.len(),
{
    if l.len() == 0 {
        false
    } else if l[0] == ' ' || l[0] == '\t' {
        spec_is_comment(l.drop_first())
    } else {
        l[0] == '#'
    }
}

/// A line the grid takes no row from: blank, or a comment.
pub open spec fn spec_line_ignored(l: Seq<char>) -> bool {
    l.len() == 0 || spec_is_comment(l)
}

/// Whether `line` is ignored by the grid: empty (after dropping a trailing
/// carriage return) or a comment line.
fn line_ignored(line: &Vec<char>) -> (r: bool)
    ensures
        r == spec_line_ignored(spec_strip_cr(line@)),
{
    let mut end: usize = line.len();
    if end > 0 && line[end - 1] == '\r' {
        end = end - 1;
    }
    proof {
        assert(spec_strip_cr(line@).len() == end);
        assert(forall|j: int| 0 <= j < end ==> spec_strip_cr(line@)[j] == line@[j]);
    }
    if end == 0 {
        return true;
    }
    let ghost l = spec_strip_cr(line@);
    proof {
        assert(l.skip(0) =~= l);
    }
    let mut i: usize = 0;
    while i < end && (line[i] == ' ' || line[i] == '\t')
        invariant
            i <= end,
            end <= line@.len(),
            l.len() == end,
            forall|j: int| 0 <= j < end ==> l[j] == line@[j],
            spec_is_comment(l) == spec_is_comment(l.skip(i as int)),
        decreases end - i,
    {
        proof {
            assert(l.skip(i as int).drop_first() =~= l.skip(i as int + 1));
        }
        i = i + 1;
    }
    if i == end {
        proof {
            assert(l.skip(i as int) =~= Seq::<char>::empty());
        }
        false
    } else {
        proof {
            assert(l.skip(i as int)[0] == l[i as int]);
        }
        line[i] == '#'
    }
}

/// The first `w` valid symbols of a line, in order.
pub open spec fn spec_row_symbols(l: Seq<char>, w: nat) -> Seq<char>
    decreases l.len(),
{
    if l.len() == 0 || w == 0 {
        Seq::<char>::empty()
    } else if spec_valid_symbol(l[0]) {
        seq![l[0]] + spec_row_symbols(l.drop_first(), (w - 1) as nat)
    } else {
        spec_row_symbols(l.drop_first(), w)
    }
}

/// A line never yields more than `w` symbols.
pub proof fn lemma_row_symbols_len(l: Seq<char>, w: nat)
    ensures
        spec_row_symbols(l, w).len() <= w,
    decreases l.len(),
{
    if l.len() != 0 && w != 0 {
        if spec_valid_symbol(l[0]) {
            lemma_row_symbols_len(l.drop_first(), (w - 1) as nat);
        } else {
            lemma_row_symbols_len(l.drop_first(), w);
        }
    }
}

/// A row of the grid taken from a line: its first `w` valid symbols, padded
/// with `.` (air) to width `w`.
pub open spec fn spec_pad_row(l: Seq<char>, w: nat) -> Seq<char> {
    spec_row_symbols(l, w) + Seq::new((w - spec_row_symbols(l, w).len()) as nat, |i: int| '.')
}

/// An all-air row.
pub open spec fn spec_dot_row(w: nat) -> Seq<char> {
    Seq::new(w, |i: int| '.')
}

/// One step of the symbol recursion at position `i` of `l`.
proof fn lemma_row_symbols_step(l: Seq<char>, i: int, w: nat)
    requires
        0 <= i < l.len(),
        w > 0,
    ensures
        spec_valid_symbol(l[i]) ==> spec_row_symbols(l.skip(i), w) == seq![l[i]]
            + spec_row_symbols(l.skip(i + 1), (w - 1) as nat),
        !spec_valid_symbol(l[i]) ==> spec_row_symbols(l.skip(i), w) == spec_row_symbols(
            l.skip(i + 1),
            w,
        ),
{
    assert(l.skip(i).len() == l.len() - i);
    assert(l.skip(i)[0] == l[i]);
    assert(l.skip(i).drop_first() =~= l.skip(i + 1));
}

/// The row that `line` contributes to a `w`-wide grid.
fn row_from_line(line: &Vec<char>, w: usize) -> (row: Vec<char>)
    ensures
        row@ == spec_pad_row(spec_strip_cr(line@), w as nat),
        row@.len() == w,
{
    let mut end: usize = line.len();
    if end > 0 && line[end - 1] == '\r' {
        end = end - 1;
    }
    let ghost l = spec_strip_cr(line@);
    proof {
        assert(l.len() == end);
        assert(forall|j: int| 0 <= j < end ==> l[j] == line@[j]);
        assert(l.skip(0) =~= l);
    }
    let mut row: Vec<char> = Vec::new();
    let mut i: usize = 0;
    while i < end && row.len() < w
        invariant
            i <= end,
            end <= line@.len(),
            l.len() == end,
            forall|j: int| 0 <= j < end ==> l[j] == line@[j],
            row@.len() <= w,
            spec_row_symbols(l, w as nat) == row@ + spec_row_symbols(
                l.skip(i as int),
                (w - row@.len()) as nat,
            ),
        decreases end - i,
    {
        let ghost old_row = row@;
        let c = line[i];
        proof {
            lemma_row_symbols_step(l, i as int, (w - row@.len()) as nat);
        }
        if is_valid_symbol(c) {
            row.push(c);
            proof {
                assert(old_row + (seq![c] + spec_row_symbols(
                    l.skip(i as int + 1),
                    (w - row@.len()) as nat,
                )) =~= row@ + spec_row_symbols(l.skip(i as int + 1), (w - row@.len()) as nat));
            }
        }
        i = i + 1;
    }
    proof {
        if i == end {
            assert(l.skip(i as int) =~= Seq::<char>::empty());
        }
        assert(spec_row_symbols(l, w as nat) =~= row@);
        lemma_row_symbols_len(l, w as nat);
    }
    let ghost syms = row@;
    while row.len() < w
        invariant
            syms.len() <= row@.len() <= w,
            syms == spec_row_symbols(l, w as nat),
            row@ == syms + Seq::new((row@.len() - syms.len()) as nat, |j: int| '.'),
        decreases w - row@.len(),
    {
        let ghost old_row = row@;
        row.push('.');
        proof {
            assert(row@ =~= syms + Seq::new((row@.len() - syms.len()) as nat, |j: int| '.'));
        }
    }
    proof {
        assert(row@ == spec_pad_row(l, w as nat));
    }
    row
}

/// The rows a sequence of lines contributes to a `w`-by-`h` grid: ignored
/// lines are skipped, each other line yields its padded row, and missing
/// rows at the end are all air.
pub open spec fn spec_collect_rows(lines: Seq<Seq<char>>, w: nat, h: nat) -> Seq<Seq<char>>
    decreases lines.len(),
{
    if h == 0 {
        Seq::<Seq<char>>::empty()
    } else if lines.len() == 0 {
        Seq::new(h, |i: int| spec_dot_row(w))
    } else {
        let l = spec_strip_cr(lines[0]);
        if spec_line_ignored(l) {
            spec_collect_rows(lines.drop_first(), w, h)
        } else {
            seq![spec_pad_row(l, w)] + spec_collect_rows(lines.drop_first(), w, (h - 1) as nat)
        }
    }
}

/// The `h` rows of `w` cells that a layer text denotes: comment lines
/// (first non-blank character `#`) and blank lines are ignored, each other
/// line contributes its first `w` valid symbols padded with air, and the
/// grid is padded with air rows to height `h`.
pub open spec fn spec_normalize(s: Seq<char>, w: nat, h: nat) -> Seq<Seq<char>> {
    spec_collect_rows(spec_split_lines(s), w, h)
}

/// One step of the row collection at line `j`.
proof fn lemma_collect_rows_step(lines: Seq<Seq<char>>, j: int, w: nat, h: nat)
    requires
        0 <= j < lines.len(),
        h > 0,
    ensures
        spec_line_ignored(spec_strip_cr(lines[j])) ==> spec_collect_rows(lines.skip(j), w, h)
            == spec_collect_rows(lines.skip(j + 1), w, h),
        !spec_line_ignored(spec_strip_cr(lines[j])) ==> spec_collect_rows(lines.skip(j), w, h)
            == seq![spec_pad_row(spec_strip_cr(lines[j]), w)] + spec_collect_rows(
            lines.skip(j + 1),
            w,
            (h - 1) as nat,
        ),
{
    assert(lines.skip(j).len() == lines.len() - j);
    assert(lines.skip(j)[0] == lines[j]);
    assert(lines.skip(j).drop_first() =~= lines.skip(j + 1));
}

/// Normalizes a layer text to exactly `grid_h` rows of `grid_w` cells.
///
/// Comment and blank lines are ignored; every other line contributes its
/// first `grid_w` valid symbols, padded with air; missing rows are air.
pub fn normalize_to_grid(txt: &str, grid_w: usize, grid_h: usize) -> (rows: Vec<Vec<char>>)
    ensures
        spec_views(rows@) == spec_normalize(txt@, grid_w as nat, grid_h as nat),
        rows@.len() == grid_h,
        forall|i: int| 0 <= i < grid_h ==> (#[trigger] rows@[i])@.len() == grid_w,
{
    let lines = split_lines(txt);
    let ghost all = spec_views(lines@);
    let mut rows: Vec<Vec<char>> = Vec::new();
    let mut j: usize = 0;
    proof {
        assert(all.skip(0) =~= all);
    }
    while j < lines.len() && rows.len() < grid_h
        invariant
            j <= lines@.len(),
            all == spec_views(lines@),
            all == spec_split_lines(txt@),
            rows@.len() <= grid_h,
            forall|i: int| 0 <= i < rows@.len() ==> (#[trigger] rows@[i])@.len() == grid_w,
            spec_normalize(txt@, grid_w as nat, grid_h as nat) == spec_views(rows@)
                + spec_collect_rows(
                all.skip(j as int),
                grid_w as nat,
                (grid_h - rows@.len()) as nat,
            ),
        decreases lines@.len() - j,
    {
        let ghost old_rows = rows@;
        proof {
            lemma_collect_rows_step(
                all,
                j as int,
                grid_w as nat,
                (grid_h - rows@.len()) as nat,
            );
            assert(all[j as int] == lines@[j as int]@);
        }
        let line = &lines[j];
        if !line_ignored(line) {
            let row = row_from_line(line, grid_w);
            rows.push(row);
            proof {
                assert(spec_views(old_rows).push(row@) =~= spec_views(rows@));
                assert(spec_views(old_rows) + (seq![row@] + spec_collect_rows(
                    all.skip(j as int + 1),
                    grid_w as nat,
                    (grid_h - rows@.len()) as nat,
                )) =~= spec_views(rows@) + spec_collect_rows(
                    all.skip(j as int + 1),
                    grid_w as nat,
                    (grid_h - rows@.len()) as nat,
                ));
            }
        }
        j = j + 1;
    }
    if rows.len() < grid_h {
        proof {
            if j == lines@.len() {
                assert(all.skip(j as int) =~= Seq::<Seq<char>>::empty());
            }
        }
        let ghost filled = spec_normalize(txt@, grid_w as nat, grid_h as nat);
        proof {
            assert(filled =~= spec_views(rows@) + Seq::new(
                (grid_h - rows@.len()) as nat,
                |i: int| spec_dot_row(grid_w as nat),
            ));
        }
        let mut dot: Vec<char> = Vec::new();
        let mut k: usize = 0;
        while k < grid_w
            invariant
                k <= grid_w,
                dot@ == spec_dot_row(k as nat),
            decreases grid_w - k,
        {
            dot.push('.');
            proof {
                assert(dot@ =~= spec_dot_row(k as nat + 1));
            }
            k = k + 1;
        }
        while rows.len() < grid_h
            invariant
                rows@.len() <= grid_h,
                dot@ == spec_dot_row(grid_w as nat),
                forall|i: int| 0 <= i < rows@.len() ==> (#[trigger] rows@[i])@.len() == grid_w,
                filled == spec_normalize(txt@, grid_w as nat, grid_h as nat),
                filled.len() == grid_h,
                forall|i: int| 0 <= i < rows@.len() ==> #[trigger] filled[i]
                    == spec_views(rows@)[i],
                forall|i: int| rows@.len() <= i < grid_h ==> #[trigger] filled[i]
                    == spec_dot_row(grid_w as nat),
            decreases grid_h - rows@.len(),
        {
            rows.push(dot.clone());
        }
        proof {
            assert(spec_views(rows@) =~= filled);
        }
    } else {
        proof {
            assert(spec_collect_rows(
                all.skip(j as int),
                grid_w as nat,
                (grid_h - rows@.len()) as nat,
            ) =~= Seq::<Seq<char>>::empty());
            assert(spec_views(rows@) =~= spec_normalize(txt@, grid_w as nat, grid_h as nat));
        }
    }
    rows
}

/// The deep views of a stack of layers.
pub open spec fn spec_layers_view(ls: Seq<Vec<Vec<char>>>) -> Seq<Seq<Seq<char>>> {
    ls.map_values(|l: Vec<Vec<char>>| spec_views(l@))
}

/// Every layer of `g` has `h` rows of `w` cells.
pub open spec fn spec_layers_wf(g: Seq<Seq<Seq<char>>>, w: nat, h: nat) -> bool {
    &&& forall|y: int| 0 <= y < g.len() ==> (#[trigger] g[y]).len() == h
    &&& forall|y: int, z: int|
        0 <= y < g.len() && 0 <= z < h ==> (#[trigger] g[y][z]).len() == w
}

/// The material of cell `(x, y, z)` of a layer stack, `None` for air and
/// for any position outside the stack.
pub open spec fn spec_cell_kind(
    g: Seq<Seq<Seq<char>>>,
    w: int,
    h: int,
    x: int,
    y: int,
    z: int,
) -> Option<BlockKind> {
    if 0 <= y < g.len() && 0 <= z < h && 0 <= x < w {
        spec_symbol_kind(g[y][z][x])
    } else {
        None
    }
}

/// A cell is exposed when one of its six face neighbors is air or lies
/// outside the stack.
pub open spec fn spec_exposed(
    g: Seq<Seq<Seq<char>>>,
    w: int,
    h: int,
    x: int,
    y: int,
    z: int,
) -> bool {
    ||| spec_cell_kind(g, w, h, x - 1, y, z) is None
    ||| spec_cell_kind(g, w, h, x + 1, y, z) is None
    ||| spec_cell_kind(g, w, h, x, y - 1, z) is None
    ||| spec_cell_kind(g, w, h, x, y + 1, z) is None
    ||| spec_cell_kind(g, w, h, x, y, z - 1) is None
    ||| spec_cell_kind(g, w, h, x, y, z + 1) is None
}

/// Whether `b` is a surface block of the stack: its cell holds its kind and
/// the cell is exposed.
pub open spec fn spec_surface_block(g: Seq<Seq<Seq<char>>>, w: int, h: int, b: Block) -> bool {
    &&& spec_cell_kind(g, w, h, b.x as int, b.y as int, b.z as int) == Some(b.kind)
    &&& spec_exposed(g, w, h, b.x as int, b.y as int, b.z as int)
}

/// Strict layer-major, then row-major, then column order of cell positions.
pub open spec fn spec_pos_lt(ay: int, az: int, ax: int, by: int, bz: int, bx: int) -> bool {
    ay < by || (ay == by && (az < bz || (az == bz && ax < bx)))
}

/// Strict layer-major order of two blocks' cells.
pub open spec fn spec_block_lt(a: Block, b: Block) -> bool {
    spec_pos_lt(a.y as int, a.z as int, a.x as int, b.y as int, b.z as int, b.x as int)
}

/// Whether some block of `bs` sits at cell `(x, y, z)`.
pub open spec fn spec_contains_pos(bs: Seq<Block>, x: int, y: int, z: int) -> bool {
    exists|i: int|
        0 <= i < bs.len() && (#[trigger] bs[i]).x == x && bs[i].y == y && bs[i].z == z
}

/// A block position stays present when the block list grows at the end.
proof fn lemma_contains_pos_extend(bs: Seq<Block>, bs2: Seq<Block>, x: int, y: int, z: int)
    requires
        bs.len() <= bs2.len(),
        forall|i: int| 0 <= i < bs.len() ==> bs2[i] == #[trigger] bs[i],
        spec_contains_pos(bs, x, y, z),
    ensures
        spec_contains_pos(bs2, x, y, z),
{
    let i = choose|i: int|
        0 <= i < bs.len() && (#[trigger] bs[i]).x == x && bs[i].y == y && bs[i].z == z;
    assert(0 <= i < bs2.len() && bs2[i].x == x && bs2[i].y == y && bs2[i].z == z);
}

/// The material of a stack cell, read from the layer characters.
fn kind_at(
    layers: &Vec<Vec<Vec<char>>>,
    grid_w: usize,
    grid_h: usize,
    x: usize,
    y: usize,
    z: usize,
) -> (k: Option<BlockKind>)
    requires
        spec_layers_wf(spec_layers_view(layers@), grid_w as nat, grid_h as nat),
        y < layers@.len(),
        z < grid_h,
        x < grid_w,
    ensures
        k == spec_cell_kind(
            spec_layers_view(layers@),
            grid_w as int,
            grid_h as int,
            x as int,
            y as int,
            z as int,
        ),
{
    let ghost gv = spec_layers_view(layers@);
    proof {
        assert(gv[y as int] == spec_views(layers@[y as int]@));
        assert(gv[y as int][z as int] == layers@[y as int]@[z as int]@);
    }
    char_to_kind(layers[y][z][x])
}

/// Whether stack cell `(x, y, z)` is exposed.
fn cell_exposed(
    layers: &Vec<Vec<Vec<char>>>,
    grid_w: usize,
    grid_h: usize,
    x: usize,
    y: usize,
    z: usize,
) -> (r: bool)
    requires
        spec_layers_wf(spec_layers_view(layers@), grid_w as nat, grid_h as nat),
        grid_w <= 0x7fff_ffff,
        grid_h <= 0x7fff_ffff,
        layers@.len() <= 0x7fff_ffff,
        y < layers@.len(),
        z < grid_h,
        x < grid_w,
    ensures
        r == spec_exposed(
            spec_layers_view(layers@),
            grid_w as int,
            grid_h as int,
            x as int,
            y as int,
            z as int,
        ),
{
    if x == 0 || y == 0 || z == 0 || x + 1 == grid_w || y + 1 == layers.len() || z + 1 == grid_h {
        return true;
    }
    if kind_at(layers, grid_w, grid_h, x - 1, y, z).is_none() {
        return true;
    }
    if kind_at(layers, grid_w, grid_h, x + 1, y, z).is_none() {
        return true;
    }
    if kind_at(layers, grid_w, grid_h, x, y - 1, z).is_none() {
        return true;
    }
    if kind_at(layers, grid_w, grid_h, x, y + 1, z).is_none() {
        return true;
    }
    if kind_at(layers, grid_w, grid_h, x, y, z - 1).is_none() {
        return true;
    }
    if kind_at(layers, grid_w, grid_h, x, y, z + 1).is_none() {
        return true;
    }
    false
}

/// The blocks whose cells lie strictly before `(y, z, x)` are exactly the
/// exposed occupied cells there.
pub open spec fn spec_complete_upto(
    bs: Seq<Block>,
    g: Seq<Seq<Seq<char>>>,
    w: int,
    h: int,
    y: int,
    z: int,
    x: int,
) -> bool {
    forall|xx: int, yy: int, zz: int|
        spec_pos_lt(yy, zz, xx, y, z, x) && (#[trigger] spec_cell_kind(
            g,
            w,
            h,
            xx,
            yy,
            zz,
        )) is Some && spec_exposed(g, w, h, xx, yy, zz) ==> spec_contains_pos(bs, xx, yy, zz)
}

/// The surface blocks of a stack of normalized layers: every exposed
/// occupied cell, in layer-major, row-major, column order.
///
/// If a cell's six neighbors are all occupied, the cell cannot be seen or
/// shadow anything, and no block is produced for it.
#[verifier::rlimit(60)]
pub fn surface_blocks(layers: &Vec<Vec<Vec<char>>>, grid_w: usize, grid_h: usize) -> (blocks: Vec<
    Block,
>)
    requires
        spec_layers_wf(spec_layers_view(layers@), grid_w as nat, grid_h as nat),
        grid_w <= 0x7fff_ffff,
        grid_h <= 0x7fff_ffff,
        layers@.len() <= 0x7fff_ffff,
    ensures
        forall|i: int|
            0 <= i < blocks@.len() ==> spec_surface_block(
                spec_layers_view(layers@),
                grid_w as int,
                grid_h as int,
                #[trigger] blocks@[i],
            ),
        forall|xx: int, yy: int, zz: int|
            (#[trigger] spec_cell_kind(
                spec_layers_view(layers@),
                grid_w as int,
                grid_h as int,
                xx,
                yy,
                zz,
            )) is Some && spec_exposed(
                spec_layers_view(layers@),
                grid_w as int,
                grid_h as int,
                xx,
                yy,
                zz,
            ) ==> spec_contains_pos(blocks@, xx, yy, zz),
        forall|i: int, j: int|
            0 <= i < j < blocks@.len() ==> spec_block_lt(
                #[trigger] blocks@[i],
                #[trigger] blocks@[j],
            ),
{
    let ghost gv = spec_layers_view(layers@);
    let ghost w = grid_w as int;
    let ghost h = grid_h as int;
    let mut blocks: Vec<Block> = Vec::new();
    let mut y: usize = 0;
    while y < layers.len()
        invariant
            y <= layers@.len(),
            gv == spec_layers_view(layers@),
            w == grid_w as int,
            h == grid_h as int,
            spec_layers_wf(gv, grid_w as nat, grid_h as nat),
            grid_w <= 0x7fff_ffff,
            grid_h <= 0x7fff_ffff,
            layers@.len() <= 0x7fff_ffff,
            forall|i: int|
                0 <= i < blocks@.len() ==> spec_surface_block(gv, w, h, #[trigger] blocks@[i])
                    && spec_pos_lt(
                    blocks@[i].y as int,
                    blocks@[i].z as int,
                    blocks@[i].x as int,
                    y as int,
                    0,
                    0,
                ),
            spec_complete_upto(blocks@, gv, w, h, y as int, 0, 0),
            forall|i: int, j: int|
                0 <= i < j < blocks@.len() ==> spec_block_lt(
                    #[trigger] blocks@[i],
                    #[trigger] blocks@[j],
                ),
        decreases layers@.len() - y,
    {
        let mut z: usize = 0;
        while z < grid_h
            invariant
                y < layers@.len(),
                z <= grid_h,
                gv == spec_layers_view(layers@),
                w == grid_w as int,
                h == grid_h as int,
                spec_layers_wf(gv, grid_w as nat, grid_h as nat),
                grid_w <= 0x7fff_ffff,
                grid_h <= 0x7fff_ffff,
                layers@.len() <= 0x7fff_ffff,
                forall|i: int|
                    0 <= i < blocks@.len() ==> spec_surface_block(gv, w, h, #[trigger] blocks@[i])
                        && spec_pos_lt(
                        blocks@[i].y as int,
                        blocks@[i].z as int,
                        blocks@[i].x as int,
                        y as int,
                        z as int,
                        0,
                    ),
                spec_complete_upto(blocks@, gv, w, h, y as int, z as int, 0),
                forall|i: int, j: int|
                    0 <= i < j < blocks@.len() ==> spec_block_lt(
                        #[trigger] blocks@[i],
                        #[trigger] blocks@[j],
                    ),
            decreases grid_h - z,
        {
            let mut x: usize = 0;
            while x < grid_w
                invariant
                    y < layers@.len(),
                    z < grid_h,
                    x <= grid_w,
                    gv == spec_layers_view(layers@),
                    w == grid_w as int,
                    h == grid_h as int,
                    spec_layers_wf(gv, grid_w as nat, grid_h as nat),
                    grid_w <= 0x7fff_ffff,
                    grid_h <= 0x7fff_ffff,
                    layers@.len() <= 0x7fff_ffff,
                    forall|i: int|
                        0 <= i < blocks@.len() ==> spec_surface_block(
                            gv,
                            w,
                            h,
                            #[trigger] blocks@[i],
                        ) && spec_pos_lt(
                            blocks@[i].y as int,
                            blocks@[i].z as int,
                            blocks@[i].x as int,
                            y as int,
                            z as int,
                            x as int,
                        ),
                    spec_complete_upto(blocks@, gv, w, h, y as int, z as int, x as int),
                    forall|i: int, j: int|
                        0 <= i < j < blocks@.len() ==> spec_block_lt(
                            #[trigger] blocks@[i],
                            #[trigger] blocks@[j],
                        ),
                decreases grid_w - x,
            {
                let ghost old_blocks = blocks@;
                let k = kind_at(layers, grid_w, grid_h, x, y, z);
                if let Some(kind) = k {
                    if cell_exposed(layers, grid_w, grid_h, x, y, z) {
                        let b = Block { x: x as i32, y: y as i32, z: z as i32, kind };
                        blocks.push(b);
                        proof {
                            assert(spec_contains_pos(blocks@, x as int, y as int, z as int)) by {
                                assert(blocks@[old_blocks.len() as int] == b);
                            }
                        }
                    }
                }
                proof {
                    assert(spec_cell_kind(gv, w, h, x as int, y as int, z as int) is Some
                        && spec_exposed(gv, w, h, x as int, y as int, z as int)
                        ==> spec_contains_pos(blocks@, x as int, y as int, z as int));
                    assert forall|xx: int, yy: int, zz: int|
                        spec_pos_lt(yy, zz, xx, y as int, z as int, x as int + 1) && (
                        #[trigger] spec_cell_kind(gv, w, h, xx, yy, zz)) is Some && spec_exposed(
                            gv,
                            w,
                            h,
                            xx,
                            yy,
                            zz,
                        ) implies spec_contains_pos(blocks@, xx, yy, zz) by {
                        if yy == y as int && zz == z as int && xx == x as int {
                        } else {
                            assert(spec_pos_lt(yy, zz, xx, y as int, z as int, x as int));
                            lemma_contains_pos_extend(old_blocks, blocks@, xx, yy, zz);
                        }
                    }
                }
                x = x + 1;
            }
            z = z + 1;
        }
        y = y + 1;
    }
    proof {
        assert(forall|xx: int, yy: int, zz: int|
            (#[trigger] spec_cell_kind(gv, w, h, xx, yy, zz)) is Some ==> spec_pos_lt(
                yy,
                zz,
                xx,
                layers@.len() as int,
                0,
                0,
            ));
    }
    blocks
}

/// Blocks in strict layer-row-column order occupy pairwise distinct
/// cells: the surface-block list meets the hypotheses under which the
/// voxel grid built from it is exact.
pub proof fn lemma_ordered_blocks_distinct(bs: Seq<Block>)
    requires
        forall|i: int, j: int|
            0 <= i < j < bs.len() ==> spec_block_lt(#[trigger] bs[i], #[trigger] bs[j]),
    ensures
        forall|i: int, j: int|
            #![trigger bs[i], bs[j]]
            0 <= i < j < bs.len() ==> !(bs[i].x == bs[j].x && bs[i].y == bs[j].y && bs[i].z
                == bs[j].z),
{
}

/// The grids that a sequence of layer texts denotes, bottom layer first.
pub open spec fn spec_layer_grids(texts: Seq<String>, w: nat, h: nat) -> Seq<Seq<Seq<char>>> {
    texts.map_values(|t: String| spec_normalize(t@, w, h))
}

/// Parses a stack of layer texts (bottom layer first) and returns its
/// surface blocks, in layer-major, row-major, column order. An empty stack
/// yields no blocks.
pub fn blocks_from_layer_texts(texts: &Vec<String>, grid_w: usize, grid_h: usize) -> (blocks: Vec<
    Block,
>)
    requires
        texts@.len() <= 0x7fff_ffff,
        grid_w <= 0x7fff_ffff,
        grid_h <= 0x7fff_ffff,
    ensures
        forall|i: int|
            0 <= i < blocks@.len() ==> spec_surface_block(
                spec_layer_grids(texts@, grid_w as nat, grid_h as nat),
                grid_w as int,
                grid_h as int,
                #[trigger] blocks@[i],
            ),
        forall|xx: int, yy: int, zz: int|
            (#[trigger] spec_cell_kind(
                spec_layer_grids(texts@, grid_w as nat, grid_h as nat),
                grid_w as int,
                grid_h as int,
                xx,
                yy,
                zz,
            )) is Some && spec_exposed(
                spec_layer_grids(texts@, grid_w as nat, grid_h as nat),
                grid_w as int,
                grid_h as int,
                xx,
                yy,
                zz,
            ) ==> spec_contains_pos(blocks@, xx, yy, zz),
        forall|i: int, j: int|
            0 <= i < j < blocks@.len() ==> spec_block_lt(
                #[trigger] blocks@[i],
                #[trigger] blocks@[j],
            ),
{
    let ghost grids = spec_layer_grids(texts@, grid_w as nat, grid_h as nat);
    let mut layers: Vec<Vec<Vec<char>>> = Vec::new();
    let mut t: usize = 0;
    while t < texts.len()
        invariant
            t <= texts@.len(),
            grids == spec_layer_grids(texts@, grid_w as nat, grid_h as nat),
            layers@.len() == t,
            forall|i: int|
                0 <= i < t ==> spec_views(#[trigger] layers@[i]@) == grids[i],
            forall|i: int|
                0 <= i < t ==> (#[trigger] layers@[i]@).len() == grid_h,
            forall|i: int, z: int|
                0 <= i < t && 0 <= z < grid_h ==> (#[trigger] layers@[i]@[z]@).len() == grid_w,
        decreases texts@.len() - t,
    {
        let rows = normalize_to_grid(texts[t].as_str(), grid_w, grid_h);
        layers.push(rows);
        t = t + 1;
    }
    proof {
        assert(spec_layers_view(layers@) =~= grids);
        assert(spec_layers_wf(grids, grid_w as nat, grid_h as nat)) by {
            assert(forall|y: int|
                0 <= y < grids.len() ==> (#[trigger] grids[y]).len() == grid_h) by {
                assert(forall|y: int|
                    0 <= y < grids.len() ==> grids[y] == spec_views(#[trigger] layers@[y]@));
            }
            assert(forall|y: int, z: int|
                0 <= y < grids.len() && 0 <= z < grid_h ==> (#[trigger] grids[y][z]).len()
                    == grid_w) by {
                assert(forall|y: int, z: int|
                    0 <= y < grids.len() && 0 <= z < grid_h ==> #[trigger] grids[y][z]
                        == layers@[y]@[z]@);
            }
        }
    }
    surface_blocks(&layers, grid_w, grid_h)
}

} // verus!
