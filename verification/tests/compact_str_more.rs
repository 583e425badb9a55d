use nvm_bevyutil::compact_str::{
    encode_char, unencode_char, CompactStr, CompactStr128, CompactStr16, CompactStr32,
    CompactStr64, CompactStr8,
};

#[test]
fn codes_of_characters() {
    assert_eq!(encode_char(b'a'), Some(2));
    assert_eq!(encode_char(b'z'), Some(27));
    assert_eq!(encode_char(b'A'), Some(2));
    assert_eq!(encode_char(b'Z'), Some(27));
    assert_eq!(encode_char(b' '), Some(1));
    assert_eq!(encode_char(b'_'), Some(1));
    for other in [0u8, b'0', b'@', b'[', b'`', b'{', 0x7f, 0xff] {
        assert_eq!(encode_char(other), None);
    }
    assert_eq!(unencode_char(0), 0);
    assert_eq!(unencode_char(1), b'_');
    assert_eq!(unencode_char(2), b'A');
    assert_eq!(unencode_char(27), b'Z');
    assert_eq!(unencode_char(31), b'^');
}

#[test]
fn capacities() {
    assert_eq!(CompactStr8::CAPACITY, 1);
    assert_eq!(CompactStr16::CAPACITY, 3);
    assert_eq!(CompactStr32::CAPACITY, 6);
    assert_eq!(CompactStr64::CAPACITY, 12);
    assert_eq!(CompactStr128::CAPACITY, 25);
    assert!(CompactStr16::try_new("abc").is_ok());
    assert!(CompactStr16::try_new("abcd").is_err());
    assert!(CompactStr32::try_new("abcdef").is_ok());
    assert!(CompactStr32::try_new("abcdefg").is_err());
    assert!(CompactStr64::try_new("abcdefghijkl").is_ok());
    assert!(CompactStr64::try_new("abcdefghijklm").is_err());
    assert!(CompactStr128::try_new("abcdefghijklmnopqrstuvwxy").is_ok());
    assert!(CompactStr128::try_new("abcdefghijklmnopqrstuvwxyz").is_err());
}

#[test]
fn reasons_for_refusal() {
    assert_eq!(CompactStr16::try_new("abcd"), Err("String contains too many characters."));
    assert_eq!(CompactStr16::try_new("a!"), Err("String contains invalid characters."));
    assert_eq!(CompactStr16::try_new("a!cd"), Err("String contains too many characters."));
    assert_eq!(CompactStr16::try_new("\u{e9}"), Err("String contains invalid characters."));
    assert_eq!(CompactStr16::try_new("a b").map(|s| s.to_raw()), Ok(0b00011_00001_00010));
}

#[test]
fn widest_string_round_trips() {
    let text = "the quick brown fox jumps";
    let packed = CompactStr128::new(text);
    assert_eq!(packed.len(), 25);
    assert_eq!(packed.to_str(), "THE_QUICK_BROWN_FOX_JUMPS");
    assert_eq!(CompactStr128::try_from_raw(packed.to_raw()), Some(packed));
    assert_eq!(packed.get_ascii(24), b'S');
    assert_eq!(CompactStr128::new(""), CompactStr128::default());
}

#[test]
fn raw_values_are_checked() {
    assert_eq!(CompactStr16::try_from_raw(0).map(|s| s.len()), Some(0));
    let abc = CompactStr16::new("abc");
    assert_eq!(CompactStr16::try_from_raw(abc.to_raw()), Some(abc));
    assert_eq!(CompactStr16::from_raw(abc.to_raw()), abc);
    // A code above 27.
    assert_eq!(CompactStr16::try_from_raw(28), None);
    assert_eq!(CompactStr16::try_from_raw(27).map(|s| s.to_str()), Some("Z".to_string()));
    // A character behind an empty group.
    assert_eq!(CompactStr16::try_from_raw(2 << 5), None);
    assert_eq!(CompactStr16::try_from_raw(2 | (3 << 10)), None);
    // The bit above the last group is not looked at.
    assert_eq!(CompactStr16::try_from_raw(0x8000 | 2).map(|s| s.len()), Some(1));
    assert_eq!(CompactStr16::from_raw_unchecked(31 << 5).to_raw(), 31 << 5);
    assert_eq!(CompactStr16::from_raw_unchecked(31 << 5).len(), 0);
    assert!(CompactStr16::from_raw_unchecked(31 << 5).is_empty());
}

#[test]
fn characters_are_read_and_written() {
    let mut s = CompactStr32::new("a_c");
    assert!(!s.is_empty());
    assert_eq!(s.get_ascii(0), b'A');
    assert_eq!(s.get_ascii(1), b'_');
    assert_eq!(s.get_ascii(2), b'C');
    s.set_ascii(1, b'b');
    assert_eq!(s.to_str(), "ABC");
    // Only the lowest bit of the group is cleared before the code is set.
    s.set_ascii(0, b'd');
    assert_eq!(s.get_ascii(0), b'F');
    assert_eq!(s.to_raw(), 7 | (3 << 5) | (4 << 10));
    assert_eq!(s.len(), 3);
}

fn packs<S: CompactStr>(text: &str) -> (usize, usize, String) {
    let s = S::new(text);
    let again = S::from_raw_unchecked(s.to_raw());
    (S::CAPACITY, again.len(), again.to_str())
}

#[test]
fn every_width_through_the_trait() {
    assert_eq!(packs::<CompactStr8>("q"), (1, 1, "Q".to_string()));
    assert_eq!(packs::<CompactStr16>("q r"), (3, 3, "Q_R".to_string()));
    assert_eq!(packs::<CompactStr32>("hello"), (6, 5, "HELLO".to_string()));
    assert_eq!(packs::<CompactStr64>(""), (12, 0, "".to_string()));
    assert_eq!(packs::<CompactStr128>("Packed String"), (25, 13, "PACKED_STRING".to_string()));
    assert!(<CompactStr32 as CompactStr>::try_new("sevenup").is_err());
    assert!(<CompactStr32 as CompactStr>::try_from_raw(29).is_none());
    let mut s = <CompactStr32 as CompactStr>::from_raw(2 | (1 << 5));
    assert!(!CompactStr::is_empty(s));
    CompactStr::set_ascii(&mut s, 1, b'z');
    assert_eq!(CompactStr::get_ascii(&s, 1), b'Z');
}
