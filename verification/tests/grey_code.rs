use midea_ir::grey::bin_to_grey;

#[test]
fn grey_codes_of_the_temperature_steps() {
    let expected: [u8; 14] = [0, 1, 3, 2, 6, 7, 5, 4, 12, 13, 15, 14, 10, 11];
    for x in 0..=13u8 {
        assert_eq!(bin_to_grey(x), expected[x as usize]);
    }
}

#[test]
fn grey_codes_of_the_temperature_steps_are_distinct() {
    for x in 0..=13u8 {
        for y in 0..x {
            assert_ne!(bin_to_grey(x), bin_to_grey(y));
        }
    }
}

#[test]
fn grey_codes_of_neighbours_differ_in_one_bit() {
    for x in 1..=13u8 {
        let changed = bin_to_grey(x) ^ bin_to_grey(x - 1);
        assert_eq!(changed.count_ones(), 1);
    }
}

#[test]
fn grey_codes_of_all_bytes_are_distinct_and_step_by_one_bit() {
    let mut seen = [false; 256];
    for x in 0..=255u8 {
        let g = bin_to_grey(x);
        assert!(!seen[g as usize]);
        seen[g as usize] = true;
        if x > 0 {
            assert_eq!((g ^ bin_to_grey(x - 1)).count_ones(), 1);
        }
    }
}

#[test]
fn grey_code_extremes() {
    assert_eq!(bin_to_grey(0), 0);
    assert_eq!(bin_to_grey(0b1000_0000), 0b1100_0000);
    assert_eq!(bin_to_grey(0xFF), 0x80);
}
