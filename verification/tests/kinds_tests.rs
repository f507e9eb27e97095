use voxel_rt::kinds::{kind_to_u8, u8_to_kind, water_mode_eq, BlockKind, WaterMode};

#[test]
fn kind_codes_roundtrip() {
    let kinds = [
        BlockKind::Grass,
        BlockKind::Dirt,
        BlockKind::Stone,
        BlockKind::Log,
        BlockKind::Leaves,
        BlockKind::Water,
    ];
    for k in kinds {
        assert_eq!(u8_to_kind(kind_to_u8(k)), Some(k));
    }
}

#[test]
fn kind_codes_are_one_through_six() {
    assert_eq!(kind_to_u8(BlockKind::Grass), 1);
    assert_eq!(kind_to_u8(BlockKind::Dirt), 2);
    assert_eq!(kind_to_u8(BlockKind::Stone), 3);
    assert_eq!(kind_to_u8(BlockKind::Log), 4);
    assert_eq!(kind_to_u8(BlockKind::Leaves), 5);
    assert_eq!(kind_to_u8(BlockKind::Water), 6);
}

#[test]
fn code_zero_and_high_codes_are_empty() {
    assert_eq!(u8_to_kind(0), None);
    assert_eq!(u8_to_kind(7), None);
    assert_eq!(u8_to_kind(255), None);
}

#[test]
fn water_mode_equality_is_by_variant() {
    let modes = [WaterMode::Off, WaterMode::SkyOnly, WaterMode::ReflectOnce];
    for (i, a) in modes.iter().enumerate() {
        for (j, b) in modes.iter().enumerate() {
            assert_eq!(water_mode_eq(*a, *b), i == j);
        }
    }
}
