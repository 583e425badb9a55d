use nvm_bevyutil::compact_str::bitset::{do_decode, do_encode};
use nvm_bevyutil::compact_str::BitSet;

#[test]
fn empty_set_is_all_zero() {
    assert_eq!(BitSet::<3>::empty().0, [0, 0, 0]);
    assert_eq!(BitSet::<3>::default(), BitSet::<3>::empty());
    assert_eq!(BitSet::<0>::empty().0, []);
}

#[test]
fn fields_within_a_byte() {
    let bytes = [0b1010_0110u8];
    assert_eq!(do_decode(&bytes, 0, 0, 3), 0b101);
    assert_eq!(do_decode(&bytes, 0, 3, 5), 0b00110);
    assert_eq!(do_decode(&bytes, 0, 2, 4), 0b1001);
    assert_eq!(do_decode(&bytes, 0, 0, 8), 0b1010_0110);
    assert_eq!(do_encode(&bytes, 0, 0, 3, 0b010), 0b0100_0110);
    assert_eq!(do_encode(&bytes, 0, 3, 5, 0b11111), 0b1011_1111);
    assert_eq!(do_encode(&bytes, 0, 2, 4, 0xf0), 0b1000_0010);
    assert_eq!(do_encode(&bytes, 0, 0, 8, 0x5a), 0x5a);
}

#[test]
fn a_field_of_seven_keeps_five_bits() {
    let bytes = [0b1111_1111u8];
    assert_eq!(do_decode(&bytes, 0, 0, 7), 0b1_1111);
    assert_eq!(do_decode(&bytes, 0, 1, 7), 0b1_1111);
    assert_eq!(do_encode(&bytes, 0, 0, 7, 0), 0b1100_0001);
    assert_eq!(do_encode(&[0u8], 0, 1, 7, 0x7f), 0b0001_1111);
}

#[test]
fn set_and_get_across_bytes() {
    let mut set = BitSet::<3>::empty();
    set.set_bits(0, 5, 0b10110);
    assert_eq!(set.0, [0b1011_0000, 0, 0]);
    set.set_bits(5, 5, 0b11011);
    assert_eq!(set.0, [0b1011_0110, 0b1100_0000, 0]);
    set.set_bits(10, 5, 0b00001);
    assert_eq!(set.0, [0b1011_0110, 0b1100_0010, 0]);
    set.set_bits(15, 5, 0b11111);
    assert_eq!(set.0, [0b1011_0110, 0b1100_0011, 0b1111_0000]);
    assert_eq!(set.get_bits(0, 5), 0b10110);
    assert_eq!(set.get_bits(5, 5), 0b11011);
    assert_eq!(set.get_bits(10, 5), 0b00001);
    assert_eq!(set.get_bits(15, 5), 0b11111);
    set.set_bits(5, 5, 0);
    assert_eq!(set.0, [0b1011_0000, 0b0000_0011, 0b1111_0000]);
    assert_eq!(set.get_bits(3, 6), 0b100000);
    // Past the last byte the bits read as zero.
    assert_eq!(set.get_bits(20, 6), 0);
    set.set_bits(18, 4, 0b0110);
    assert_eq!(set.get_bits(20, 6), 0b100000);
}

#[test]
fn from_buffer_packs_fields() {
    let set = BitSet::<2>::from_buffer(&[1, 2, 3, 4], 4, 4);
    assert_eq!(set.0, [0x12, 0x34]);
    let set = BitSet::<2>::from_buffer(&[1, 2, 3, 4, 5, 6], 6, 4);
    assert_eq!(set.0, [0x12, 0x34]);
    let set = BitSet::<2>::from_buffer(&[0xff, 0xff, 0xff], 2, 4);
    assert_eq!(set.0, [0xff, 0x00]);
    let set = BitSet::<2>::from_buffer(&[0b10101, 0b01010, 0b11111], 3, 5);
    assert_eq!(set.0, [0b1010_1010, 0b1011_1110]);
    let set = BitSet::<2>::from_buffer(&[9, 9], 0, 5);
    assert_eq!(set.0, [0, 0]);
}

#[test]
fn written_fields_read_back() {
    for width in 1usize..=6 {
        for offset in 0usize..=(24 - width) {
            for value in [0u8, 1, 0b10_1010, 0b01_0101, 0xff] {
                let mut set = BitSet::<3>([0xa5, 0x5a, 0xc3]);
                let before = set;
                set.set_bits(offset, width, value);
                assert_eq!(set.get_bits(offset, width), value % (1 << width));
                // Every bit outside the field stays.
                for bit in 0..24 {
                    if bit < offset || bit >= offset + width {
                        assert_eq!(set.get_bits(bit, 1), before.get_bits(bit, 1));
                    }
                }
            }
        }
    }
    // Seven bits across two bytes are all kept.
    let mut set = BitSet::<2>::empty();
    set.set_bits(4, 7, 0x7f);
    assert_eq!(set.0, [0b0000_1111, 0b1110_0000]);
    assert_eq!(set.get_bits(4, 7), 0x7f);
}
