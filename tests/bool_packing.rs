use propagate::bool_packing::{get_bit_at, pack_bool};

#[test]
fn pack_empty_gives_no_bytes() {
    assert_eq!(pack_bool(&[]), Vec::<u8>::new());
}

#[test]
fn pack_sets_bits_lowest_first() {
    assert_eq!(pack_bool(&[true, false, true]), vec![0b101]);
    assert_eq!(pack_bool(&[false, true]), vec![0b10]);
}

#[test]
fn pack_eight_fills_one_byte() {
    assert_eq!(pack_bool(&[true; 8]), vec![0xff]);
    assert_eq!(pack_bool(&[false, false, false, false, false, false, false, true]), vec![0x80]);
}

#[test]
fn pack_nine_starts_a_second_byte() {
    let mut bools = [false; 9];
    bools[8] = true;
    bools[0] = true;
    assert_eq!(pack_bool(&bools), vec![0b1, 0b1]);
}

#[test]
fn pack_then_read_round_trips() {
    for n in 0..40usize {
        let bools: Vec<bool> = (0..n).map(|i| (i * 7 + n) % 3 == 0).collect();
        let packed = pack_bool(&bools);
        assert_eq!(packed.len(), (n + 7) / 8);
        for (i, b) in bools.iter().enumerate() {
            assert_eq!(get_bit_at(&packed, i), *b);
        }
        for i in n..packed.len() * 8 {
            assert!(!get_bit_at(&packed, i));
        }
    }
}

#[test]
fn get_bit_reads_byte_and_offset() {
    let bytes = [0b0000_0100u8, 0b1000_0000];
    assert!(get_bit_at(&bytes, 2));
    assert!(!get_bit_at(&bytes, 3));
    assert!(get_bit_at(&bytes, 15));
    assert!(!get_bit_at(&bytes, 8));
}
