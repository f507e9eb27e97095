use voxel_rt::sky::{star_cell_hash, star_level, star_present};

#[test]
fn star_hash_is_deterministic() {
    for x in -5i32..5 {
        for z in -5i32..5 {
            assert_eq!(star_cell_hash(x, z), star_cell_hash(x, z));
        }
    }
}

#[test]
fn star_hash_known_values() {
    assert_eq!(star_cell_hash(0, 0), 0);
    assert_eq!(star_cell_hash(1, 0), 73856093);
    assert_eq!(star_cell_hash(0, 1), 19349663);
}

#[test]
fn star_presence_is_the_top_two_percent() {
    assert!(!star_present(0));
    assert!(!star_present(979));
    assert!(star_present(980));
    assert!(star_present(999));
    assert!(star_present(1980));
    assert!(!star_present(73856093));
}

#[test]
fn star_level_comes_from_high_bits() {
    assert_eq!(star_level(0), 0);
    assert_eq!(star_level(73856093), 26);
    assert_eq!(star_level(19349663), 95);
}
