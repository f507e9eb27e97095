use voxel_rt::kinds::BlockKind;
use voxel_rt::world::{
    blocks_from_layer_texts, char_to_kind, is_valid_symbol, normalize_to_grid, Block,
};

fn row(s: &str) -> Vec<char> {
    s.chars().collect()
}

#[test]
fn valid_symbols_are_the_layer_alphabet() {
    for c in ['g', 'G', 'd', 'D', 's', 'S', 'l', 'L', 'v', 'V', 'w', 'W', '.', ' '] {
        assert!(is_valid_symbol(c));
    }
    for c in ['x', '#', '\n', '0', 'a', 'q'] {
        assert!(!is_valid_symbol(c));
    }
}

#[test]
fn characters_map_to_kinds() {
    assert_eq!(char_to_kind('g'), Some(BlockKind::Grass));
    assert_eq!(char_to_kind('G'), Some(BlockKind::Grass));
    assert_eq!(char_to_kind('d'), Some(BlockKind::Dirt));
    assert_eq!(char_to_kind('S'), Some(BlockKind::Stone));
    assert_eq!(char_to_kind('l'), Some(BlockKind::Log));
    assert_eq!(char_to_kind('V'), Some(BlockKind::Leaves));
    assert_eq!(char_to_kind('w'), Some(BlockKind::Water));
    assert_eq!(char_to_kind('.'), None);
    assert_eq!(char_to_kind(' '), None);
    assert_eq!(char_to_kind('x'), None);
}

#[test]
fn normalize_pads_and_truncates() {
    let rows = normalize_to_grid("g.d\ngggg\n", 3, 3);
    assert_eq!(rows.len(), 3);
    assert_eq!(rows[0], row("g.d"));
    assert_eq!(rows[1], row("ggg"));
    assert_eq!(rows[2], row("..."));
}

#[test]
fn normalize_skips_comments_and_blank_lines() {
    let rows = normalize_to_grid("# top layer\n\ng\n# note\nd\n", 2, 2);
    assert_eq!(rows.len(), 2);
    assert_eq!(rows[0], row("g."));
    assert_eq!(rows[1], row("d."));
}

#[test]
fn normalize_skips_indented_comment() {
    let rows = normalize_to_grid("  # indented\ns\n", 1, 1);
    assert_eq!(rows, vec![row("s")]);
}

#[test]
fn normalize_drops_invalid_characters() {
    let rows = normalize_to_grid("x!gqd\n", 2, 1);
    assert_eq!(rows, vec![row("gd")]);
}

#[test]
fn normalize_handles_crlf_lines() {
    let rows = normalize_to_grid("g\r\n\r\nd\r\n", 1, 2);
    assert_eq!(rows, vec![row("g"), row("d")]);
}

#[test]
fn normalize_keeps_space_only_lines_as_air_rows() {
    // Spaces are valid symbols meaning air, so a line of spaces is a row,
    // not a blank line.
    let rows = normalize_to_grid("  \ng\n", 2, 2);
    assert_eq!(rows, vec![row("  "), row("g.")]);
}

#[test]
fn hash_mid_line_is_not_a_comment() {
    let rows = normalize_to_grid("g#d\n", 3, 1);
    assert_eq!(rows, vec![row("gd.")]);
}

#[test]
fn normalize_empty_text_is_all_air() {
    let rows = normalize_to_grid("", 2, 2);
    assert_eq!(rows, vec![row(".."), row("..")]);
}

#[test]
fn single_cell_layer_yields_one_block() {
    let texts = vec![String::from("g")];
    let blocks = blocks_from_layer_texts(&texts, 1, 1);
    assert_eq!(
        blocks,
        vec![Block { x: 0, y: 0, z: 0, kind: BlockKind::Grass }]
    );
}

#[test]
fn empty_stack_yields_no_blocks() {
    let texts: Vec<String> = Vec::new();
    assert_eq!(blocks_from_layer_texts(&texts, 4, 4), Vec::new());
}

#[test]
fn one_layer_is_fully_exposed() {
    let texts = vec![String::from("sss\nsss\nsss\n")];
    let blocks = blocks_from_layer_texts(&texts, 3, 3);
    assert_eq!(blocks.len(), 9);
    for b in &blocks {
        assert_eq!(b.kind, BlockKind::Stone);
        assert_eq!(b.y, 0);
    }
}

#[test]
fn interior_cell_is_hidden() {
    let layer = String::from("sss\nsss\nsss\n");
    let texts = vec![layer.clone(), layer.clone(), layer.clone()];
    let blocks = blocks_from_layer_texts(&texts, 3, 3);
    assert_eq!(blocks.len(), 26);
    assert!(!blocks.iter().any(|b| b.x == 1 && b.y == 1 && b.z == 1));
    assert!(blocks.iter().any(|b| b.x == 1 && b.y == 0 && b.z == 1));
}

#[test]
fn air_neighbor_exposes_cell() {
    // Middle layer has an air cell; the block under it must be exposed.
    let full = String::from("sss\nsss\nsss\n");
    let holed = String::from("sss\ns.s\nsss\n");
    let texts = vec![full.clone(), holed, full.clone()];
    let blocks = blocks_from_layer_texts(&texts, 3, 3);
    assert!(blocks.iter().any(|b| b.x == 1 && b.y == 0 && b.z == 1));
    assert!(blocks.iter().any(|b| b.x == 1 && b.y == 2 && b.z == 1));
}

#[test]
fn blocks_come_in_layer_row_column_order() {
    let texts = vec![String::from("gd\nsw\n")];
    let blocks = blocks_from_layer_texts(&texts, 2, 2);
    assert_eq!(blocks.len(), 4);
    assert_eq!((blocks[0].x, blocks[0].z, blocks[0].kind), (0, 0, BlockKind::Grass));
    assert_eq!((blocks[1].x, blocks[1].z, blocks[1].kind), (1, 0, BlockKind::Dirt));
    assert_eq!((blocks[2].x, blocks[2].z, blocks[2].kind), (0, 1, BlockKind::Stone));
    assert_eq!((blocks[3].x, blocks[3].z, blocks[3].kind), (1, 1, BlockKind::Water));
}
