use onitama::board::{coordinates_to_bitwise_shift, shift_position, square_index_of, square_label, valid_moves_mask};

#[test]
fn bitwise_shift_of_coordinates() {
    assert_eq!(coordinates_to_bitwise_shift(0, 0), 0);
    assert_eq!(coordinates_to_bitwise_shift(2, 0), 2);
    assert_eq!(coordinates_to_bitwise_shift(1, 1), 6);
    assert_eq!(coordinates_to_bitwise_shift(-1, -2), -11);
    assert_eq!(coordinates_to_bitwise_shift(2, 2), 12);
}

#[test]
fn shifting_positions_both_ways() {
    assert_eq!(shift_position(1, 0), 1);
    assert_eq!(shift_position(1, 6), 64);
    assert_eq!(shift_position(64, -6), 1);
    assert_eq!(shift_position(0b100, 5), 0b100_00000);
    assert_eq!(shift_position(0b100_00000, -5), 0b100);
}

#[test]
fn corner_edge_masks_have_expected_values() {
    // Square A1 (bit 0): only columns A-C of rows 1-3 stay reachable.
    assert_eq!(valid_moves_mask(0), 0b00000_00000_00111_00111_00111);
    // Square C3 (bit 12), the centre: the whole board is reachable.
    assert_eq!(valid_moves_mask(12), 0b11111_11111_11111_11111_11111);
    // Square E5 (bit 24).
    assert_eq!(valid_moves_mask(24), 0b11100_11100_11100_00000_00000);
    // Square A4 (bit 15).
    assert_eq!(valid_moves_mask(15), 0b00111_00111_00111_00111_00000);
}

#[test]
fn labels_cover_the_board() {
    assert_eq!(square_label(0), "A1");
    assert_eq!(square_label(2), "C1");
    assert_eq!(square_label(4), "E1");
    assert_eq!(square_label(12), "C3");
    assert_eq!(square_label(20), "A5");
    assert_eq!(square_label(24), "E5");
}

#[test]
fn square_index_recovers_bit_position() {
    for k in 0..25u32 {
        assert_eq!(square_index_of(1u32 << k), k as usize);
    }
}
