//! Short strings packed five bits to the character, and the bit set they rest on.

use vstd::prelude::*;
use vstd::string::StringSliceAdditionalSpecFns;

pub mod bitset;
pub mod packed;

pub use bitset::BitSet;
pub use packed::{encode_char, unencode_char};
use packed::{
    all_encodable, code_at, get_raw, holds, is_valid, lemma_len, len_of, pack, sanitized, set_raw,
    spec_encode_char, spec_len, spec_unencode_char, spec_valid, try_pack, unpack, with_code,
    INVALID_CHARACTERS, TOO_MANY_CHARACTERS,
};

verus! {

/// `String::from_utf8`: bytes below 128 are valid UTF-8, one character to
/// the byte, so the string holds exactly these characters.
#[verifier::external_body]
fn string_from_ascii(bytes: Vec<u8>) -> (s: String)
    requires
        forall|i: int| 0 <= i < bytes@.len() ==> (#[trigger] bytes@[i]) < 128,
    ensures
        s@.len() == bytes@.len(),
        forall|i: int| 0 <= i < bytes@.len() ==> #[trigger] s@[i] == bytes@[i] as char,
{
    String::from_utf8(bytes).unwrap_or_default()
}

/// The codes that a packed value holds lie below the top of its last group.
proof fn lemma_holds_fits(raw: u128, codes: Seq<u8>, capacity: int)
    requires
        holds(raw, codes),
        codes.len() <= capacity <= 25,
    ensures
        raw >> ((capacity * 5) as u128) == 0,
{
    let s: u128 = (codes.len() * 5) as u128;
    let t: u128 = (capacity * 5) as u128;
    assert(raw >> s == 0 && s <= t && t <= 125 ==> raw >> t == 0) by (bit_vector);
}

/// What the packed strings of every width have in common.
pub trait CompactStr: Sized + Copy {
    /// The integer that holds the packed value.
    type InnerType;

    /// The number of characters that fit.
    const CAPACITY: usize;

    /// The packed value of a string, widened.
    spec fn wide(self) -> u128;

    /// A packed value, widened.
    spec fn widened(value: Self::InnerType) -> u128;

    /// The string of the characters of `value`, a letter in either case
    /// standing for its capital, and an underscore for a space and for
    /// every other character.
    fn new(value: &str) -> (r: Self)
        requires
            value.spec_bytes().len() <= Self::CAPACITY,
        ensures
            holds(r.wide(), sanitized(value.spec_bytes())),
    ;

    /// The string of the characters of `value`, or the reason why there is
    /// none: more characters than fit, or a character that is no letter,
    /// space or underscore.
    fn try_new(value: &str) -> (r: Result<Self, &'static str>)
        ensures
            r is Ok <==> value.spec_bytes().len() <= Self::CAPACITY && all_encodable(
                value.spec_bytes(),
            ),
            r matches Ok(s) ==> holds(s.wide(), sanitized(value.spec_bytes())),
            r matches Err(e) ==> e@ == (if value.spec_bytes().len() > Self::CAPACITY {
                TOO_MANY_CHARACTERS@
            } else {
                INVALID_CHARACTERS@
            }),
    ;

    /// The characters, each letter as its capital.
    fn to_str(self) -> (r: String)
        ensures
            r@.len() == spec_len(self.wide(), Self::CAPACITY as int),
            forall|i: int|
                0 <= i < r@.len() ==> #[trigger] r@[i] == spec_unencode_char(
                    code_at(self.wide(), i),
                ) as char,
    ;

    /// The number of characters.
    fn len(self) -> (r: usize)
        ensures
            r == spec_len(self.wide(), Self::CAPACITY as int),
    ;

    /// Whether the string has no character.
    fn is_empty(self) -> (r: bool)
        ensures
            r == (spec_len(self.wide(), Self::CAPACITY as int) == 0),
    ;

    /// The string with the packed value `value`, where that is a string.
    fn try_from_raw(value: Self::InnerType) -> (r: Option<Self>)
        ensures
            r is Some <==> spec_valid(Self::widened(value), Self::CAPACITY as int),
            r matches Some(s) ==> s.wide() == Self::widened(value),
    ;

    /// The string with the packed value `value`.
    fn from_raw(value: Self::InnerType) -> (r: Self)
        requires
            spec_valid(Self::widened(value), Self::CAPACITY as int),
        ensures
            r.wide() == Self::widened(value),
    ;

    /// The string with the packed value `value`, which is not looked at.
    fn from_raw_unchecked(value: Self::InnerType) -> (r: Self)
        ensures
            r.wide() == Self::widened(value),
    ;

    /// The packed value.
    fn to_raw(self) -> (r: Self::InnerType)
        ensures
            Self::widened(r) == self.wide(),
    ;

    /// Stores the character `value` at `idx`.
    fn set_ascii(&mut self, idx: usize, value: u8)
        requires
            idx < spec_len(old(self).wide(), Self::CAPACITY as int),
            spec_encode_char(value) is Some,
        ensures
            final(self).wide() == with_code(
                old(self).wide(),
                idx as int,
                spec_encode_char(value).unwrap(),
            ),
    ;

    /// The character at `idx`, a letter as its capital.
    fn get_ascii(&self, idx: usize) -> (r: u8)
        requires
            idx < spec_len(self.wide(), Self::CAPACITY as int),
        ensures
            r == spec_unencode_char(code_at(self.wide(), idx as int)),
    ;
}

/// A string of up to one character in a `u8`, five bits to the character, the
/// first character lowest.
#[derive(Debug, Clone, Copy, PartialEq, Eq, PartialOrd, Ord, Hash, Structural)]
pub struct CompactStr8(u8);

impl Default for CompactStr8 {
    fn default() -> (r: Self)
        ensures
            r.spec_to_raw() == 0,
    {
        Self(0)
    }
}

impl CompactStr8 {
    /// The number of characters that fit.
    pub const CAPACITY: usize = 1;

    /// The packed value.
    pub closed spec fn spec_to_raw(self) -> u8 {
        self.0
    }

    /// The string with the packed value `value`, well-formed or not.
    pub closed spec fn spec_from_raw(value: u8) -> Self {
        Self(value)
    }

    /// A string is its packed value and nothing else.
    pub broadcast proof fn lemma_raw(value: u8)
        ensures
            (#[trigger] Self::spec_from_raw(value)).spec_to_raw() == value,
    {
    }

    /// The number of characters.
    pub open spec fn spec_len(self) -> int {
        spec_len(self.spec_to_raw() as u128, 1)
    }

    /// The string of the characters of `value`, a letter in either case
    /// standing for its capital, and an underscore for a space and for
    /// every other character.
    pub fn new(value: &str) -> (r: Self)
        requires
            value.spec_bytes().len() <= 1,
        ensures
            holds(r.spec_to_raw() as u128, sanitized(value.spec_bytes())),
    {
        let raw: u128 = pack(value.as_bytes(), 1);
        proof {
            lemma_holds_fits(raw, sanitized(value.spec_bytes()), 1);
            lemma_fits_u8(raw);
        }
        Self(raw as u8)
    }

    /// The string of the characters of `value`, or the reason why there is
    /// none: more characters than fit, or a character that is no letter,
    /// space or underscore.
    pub fn try_new(value: &str) -> (r: Result<Self, &'static str>)
        ensures
            r is Ok <==> value.spec_bytes().len() <= 1 && all_encodable(value.spec_bytes()),
            r matches Ok(s) ==> holds(s.spec_to_raw() as u128, sanitized(value.spec_bytes())),
            r matches Err(e) ==> e@ == (if value.spec_bytes().len() > 1 {
                TOO_MANY_CHARACTERS@
            } else {
                INVALID_CHARACTERS@
            }),
    {
        match try_pack(value.as_bytes(), 1) {
            Ok(raw) => {
                proof {
                    lemma_holds_fits(raw, sanitized(value.spec_bytes()), 1);
                    lemma_fits_u8(raw);
                }
                Ok(Self(raw as u8))
            },
            Err(e) => Err(e),
        }
    }

    /// The characters, each letter as its capital.
    pub fn to_str(self) -> (r: String)
        ensures
            r@.len() == self.spec_len(),
            forall|i: int|
                0 <= i < r@.len() ==> #[trigger] r@[i] == spec_unencode_char(
                    code_at(self.spec_to_raw() as u128, i),
                ) as char,
    {
        string_from_ascii(unpack(self.0 as u128, 1))
    }

    /// The number of characters.
    pub fn len(self) -> (r: usize)
        ensures
            r == self.spec_len(),
            r <= 1,
    {
        len_of(self.0 as u128, 1)
    }

    /// Whether the string has no character.
    pub fn is_empty(self) -> (r: bool)
        ensures
            r == (self.spec_len() == 0),
    {
        proof {
            lemma_len(self.0 as u128, 1);
        }
        get_raw(self.0 as u128, 0) == 0
    }

    /// The string with the packed value `value`, where that is a string.
    pub fn try_from_raw(value: u8) -> (r: Option<Self>)
        ensures
            r == (if spec_valid(value as u128, 1) {
                Some(Self::spec_from_raw(value))
            } else {
                None
            }),
    {
        if is_valid(value as u128, 1) {
            Some(Self(value))
        } else {
            None
        }
    }

    /// The string with the packed value `value`.
    pub fn from_raw(value: u8) -> (r: Self)
        requires
            spec_valid(value as u128, 1),
        ensures
            r == Self::spec_from_raw(value),
    {
        Self(value)
    }

    /// The string with the packed value `value`, which is not looked at:
    /// with a value that is no string, what the other functions return is
    /// still what their contracts say of the groups of five bits.
    pub fn from_raw_unchecked(value: u8) -> (r: Self)
        ensures
            r == Self::spec_from_raw(value),
    {
        Self(value)
    }

    /// The packed value.
    #[verifier::when_used_as_spec(spec_to_raw)]
    pub fn to_raw(self) -> (r: u8)
        ensures
            r == self.spec_to_raw(),
    {
        self.0
    }

    /// Stores the character `value` at `idx`.
    pub fn set_ascii(&mut self, idx: usize, value: u8)
        requires
            idx < old(self).spec_len(),
            spec_encode_char(value) is Some,
        ensures
            final(self).spec_to_raw() as u128 == with_code(
                old(self).spec_to_raw() as u128,
                idx as int,
                spec_encode_char(value).unwrap(),
            ),
    {
        proof {
            lemma_len(self.0 as u128, 1);
        }
        match encode_char(value) {
            Some(code) => self.set_raw(idx, code),
            None => {},
        }
    }

    /// The character at `idx`, a letter as its capital.
    pub fn get_ascii(&self, idx: usize) -> (r: u8)
        requires
            idx < self.spec_len(),
        ensures
            r == spec_unencode_char(code_at(self.spec_to_raw() as u128, idx as int)),
    {
        proof {
            lemma_len(self.0 as u128, 1);
        }
        unencode_char(self.get_raw(idx))
    }

    fn set_raw(&mut self, idx: usize, val: u8)
        requires
            idx < 1,
        ensures
            final(self).spec_to_raw() as u128 == with_code(
                old(self).spec_to_raw() as u128,
                idx as int,
                val,
            ),
    {
        let raw: u128 = set_raw(self.0 as u128, idx, val);
        proof {
            lemma_with_code_fits_u8(self.0 as u128, idx as int, val);
        }
        self.0 = raw as u8;
    }

    fn get_raw(self, idx: usize) -> (r: u8)
        requires
            idx < 1,
        ensures
            r == code_at(self.spec_to_raw() as u128, idx as int),
            r <= 31,
    {
        get_raw(self.0 as u128, idx)
    }
}

/// What lies below bit 5 is a `u8`.
proof fn lemma_fits_u8(raw: u128)
    requires
        raw >> 5u128 == 0,
    ensures
        raw as u8 as u128 == raw,
{
    assert(raw >> 5u128 == 0 ==> raw as u8 as u128 == raw) by (bit_vector);
}

/// A code stored in one of the groups of a `u8` stays inside it.
proof fn lemma_with_code_fits_u8(raw: u128, idx: int, val: u8)
    requires
        raw as u8 as u128 == raw,
        0 <= idx < 1,
    ensures
        with_code(raw, idx, val) as u8 as u128 == with_code(raw, idx, val),
{
    let s: u128 = (idx * 5) as u128;
    let v: u128 = (val & 0x1f) as u128;
    assert(v <= 31) by (bit_vector)
        requires
            v == (val & 0x1f) as u128,
    ;
    let next = (raw & !(1u128 << s)) | (v << s);
    assert(next as u8 as u128 == next) by (bit_vector)
        requires
            next == (raw & !(1u128 << s)) | (v << s),
            raw as u8 as u128 == raw,
            v <= 31,
            s + 5 <= 5,
    ;
}

impl CompactStr for CompactStr8 {
    type InnerType = u8;

    const CAPACITY: usize = 1;

    open spec fn wide(self) -> u128 {
        self.spec_to_raw() as u128
    }

    open spec fn widened(value: u8) -> u128 {
        value as u128
    }

    fn new(value: &str) -> (r: Self) {
        CompactStr8::new(value)
    }

    fn try_new(value: &str) -> (r: Result<Self, &'static str>) {
        CompactStr8::try_new(value)
    }

    fn to_str(self) -> (r: String) {
        CompactStr8::to_str(self)
    }

    fn len(self) -> (r: usize) {
        CompactStr8::len(self)
    }

    fn is_empty(self) -> (r: bool) {
        CompactStr8::is_empty(self)
    }

    fn try_from_raw(value: u8) -> (r: Option<Self>) {
        broadcast use CompactStr8::lemma_raw;

        CompactStr8::try_from_raw(value)
    }

    fn from_raw(value: u8) -> (r: Self) {
        broadcast use CompactStr8::lemma_raw;

        CompactStr8::from_raw(value)
    }

    fn from_raw_unchecked(value: u8) -> (r: Self) {
        broadcast use CompactStr8::lemma_raw;

        CompactStr8::from_raw_unchecked(value)
    }

    fn to_raw(self) -> (r: u8) {
        CompactStr8::to_raw(self)
    }

    fn set_ascii(&mut self, idx: usize, value: u8) {
        CompactStr8::set_ascii(self, idx, value)
    }

    fn get_ascii(&self, idx: usize) -> (r: u8) {
        CompactStr8::get_ascii(self, idx)
    }
}

/// A string of up to three characters in a `u16`, five bits to the character, the
/// first character lowest.
#[derive(Debug, Clone, Copy, PartialEq, Eq, PartialOrd, Ord, Hash, Structural)]
pub struct CompactStr16(u16);

impl Default for CompactStr16 {
    fn default() -> (r: Self)
        ensures
            r.spec_to_raw() == 0,
    {
        Self(0)
    }
}

impl CompactStr16 {
    /// The number of characters that fit.
    pub const CAPACITY: usize = 3;

    /// The packed value.
    pub closed spec fn spec_to_raw(self) -> u16 {
        self.0
    }

    /// The string with the packed value `value`, well-formed or not.
    pub closed spec fn spec_from_raw(value: u16) -> Self {
        Self(value)
    }

    /// A string is its packed value and nothing else.
    pub broadcast proof fn lemma_raw(value: u16)
        ensures
            (#[trigger] Self::spec_from_raw(value)).spec_to_raw() == value,
    {
    }

    /// The number of characters.
    pub open spec fn spec_len(self) -> int {
        spec_len(self.spec_to_raw() as u128, 3)
    }

    /// The string of the characters of `value`, a letter in either case
    /// standing for its capital, and an underscore for a space and for
    /// every other character.
    pub fn new(value: &str) -> (r: Self)
        requires
            value.spec_bytes().len() <= 3,
        ensures
            holds(r.spec_to_raw() as u128, sanitized(value.spec_bytes())),
    {
        let raw: u128 = pack(value.as_bytes(), 3);
        proof {
            lemma_holds_fits(raw, sanitized(value.spec_bytes()), 3);
            lemma_fits_u16(raw);
        }
        Self(raw as u16)
    }

    /// The string of the characters of `value`, or the reason why there is
    /// none: more characters than fit, or a character that is no letter,
    /// space or underscore.
    pub fn try_new(value: &str) -> (r: Result<Self, &'static str>)
        ensures
            r is Ok <==> value.spec_bytes().len() <= 3 && all_encodable(value.spec_bytes()),
            r matches Ok(s) ==> holds(s.spec_to_raw() as u128, sanitized(value.spec_bytes())),
            r matches Err(e) ==> e@ == (if value.spec_bytes().len() > 3 {
                TOO_MANY_CHARACTERS@
            } else {
                INVALID_CHARACTERS@
            }),
    {
        match try_pack(value.as_bytes(), 3) {
            Ok(raw) => {
                proof {
                    lemma_holds_fits(raw, sanitized(value.spec_bytes()), 3);
                    lemma_fits_u16(raw);
                }
                Ok(Self(raw as u16))
            },
            Err(e) => Err(e),
        }
    }

    /// The characters, each letter as its capital.
    pub fn to_str(self) -> (r: String)
        ensures
            r@.len() == self.spec_len(),
            forall|i: int|
                0 <= i < r@.len() ==> #[trigger] r@[i] == spec_unencode_char(
                    code_at(self.spec_to_raw() as u128, i),
                ) as char,
    {
        string_from_ascii(unpack(self.0 as u128, 3))
    }

    /// The number of characters.
    pub fn len(self) -> (r: usize)
        ensures
            r == self.spec_len(),
            r <= 3,
    {
        len_of(self.0 as u128, 3)
    }

    /// Whether the string has no character.
    pub fn is_empty(self) -> (r: bool)
        ensures
            r == (self.spec_len() == 0),
    {
        proof {
            lemma_len(self.0 as u128, 3);
        }
        get_raw(self.0 as u128, 0) == 0
    }

    /// The string with the packed value `value`, where that is a string.
    pub fn try_from_raw(value: u16) -> (r: Option<Self>)
        ensures
            r == (if spec_valid(value as u128, 3) {
                Some(Self::spec_from_raw(value))
            } else {
                None
            }),
    {
        if is_valid(value as u128, 3) {
            Some(Self(value))
        } else {
            None
        }
    }

    /// The string with the packed value `value`.
    pub fn from_raw(value: u16) -> (r: Self)
        requires
            spec_valid(value as u128, 3),
        ensures
            r == Self::spec_from_raw(value),
    {
        Self(value)
    }

    /// The string with the packed value `value`, which is not looked at:
    /// with a value that is no string, what the other functions return is
    /// still what their contracts say of the groups of five bits.
    pub fn from_raw_unchecked(value: u16) -> (r: Self)
        ensures
            r == Self::spec_from_raw(value),
    {
        Self(value)
    }

    /// The packed value.
    #[verifier::when_used_as_spec(spec_to_raw)]
    pub fn to_raw(self) -> (r: u16)
        ensures
            r == self.spec_to_raw(),
    {
        self.0
    }

    /// Stores the character `value` at `idx`.
    pub fn set_ascii(&mut self, idx: usize, value: u8)
        requires
            idx < old(self).spec_len(),
            spec_encode_char(value) is Some,
        ensures
            final(self).spec_to_raw() as u128 == with_code(
                old(self).spec_to_raw() as u128,
                idx as int,
                spec_encode_char(value).unwrap(),
            ),
    {
        proof {
            lemma_len(self.0 as u128, 3);
        }
        match encode_char(value) {
            Some(code) => self.set_raw(idx, code),
            None => {},
        }
    }

    /// The character at `idx`, a letter as its capital.
    pub fn get_ascii(&self, idx: usize) -> (r: u8)
        requires
            idx < self.spec_len(),
        ensures
            r == spec_unencode_char(code_at(self.spec_to_raw() as u128, idx as int)),
    {
        proof {
            lemma_len(self.0 as u128, 3);
        }
        unencode_char(self.get_raw(idx))
    }

    fn set_raw(&mut self, idx: usize, val: u8)
        requires
            idx < 3,
        ensures
            final(self).spec_to_raw() as u128 == with_code(
                old(self).spec_to_raw() as u128,
                idx as int,
                val,
            ),
    {
        let raw: u128 = set_raw(self.0 as u128, idx, val);
        proof {
            lemma_with_code_fits_u16(self.0 as u128, idx as int, val);
        }
        self.0 = raw as u16;
    }

    fn get_raw(self, idx: usize) -> (r: u8)
        requires
            idx < 3,
        ensures
            r == code_at(self.spec_to_raw() as u128, idx as int),
            r <= 31,
    {
        get_raw(self.0 as u128, idx)
    }
}

/// What lies below bit 15 is a `u16`.
proof fn lemma_fits_u16(raw: u128)
    requires
        raw >> 15u128 == 0,
    ensures
        raw as u16 as u128 == raw,
{
    assert(raw >> 15u128 == 0 ==> raw as u16 as u128 == raw) by (bit_vector);
}

/// A code stored in one of the groups of a `u16` stays inside it.
proof fn lemma_with_code_fits_u16(raw: u128, idx: int, val: u8)
    requires
        raw as u16 as u128 == raw,
        0 <= idx < 3,
    ensures
        with_code(raw, idx, val) as u16 as u128 == with_code(raw, idx, val),
{
    let s: u128 = (idx * 5) as u128;
    let v: u128 = (val & 0x1f) as u128;
    assert(v <= 31) by (bit_vector)
        requires
            v == (val & 0x1f) as u128,
    ;
    let next = (raw & !(1u128 << s)) | (v << s);
    assert(next as u16 as u128 == next) by (bit_vector)
        requires
            next == (raw & !(1u128 << s)) | (v << s),
            raw as u16 as u128 == raw,
            v <= 31,
            s + 5 <= 15,
    ;
}

impl CompactStr for CompactStr16 {
    type InnerType = u16;

    const CAPACITY: usize = 3;

    open spec fn wide(self) -> u128 {
        self.spec_to_raw() as u128
    }

    open spec fn widened(value: u16) -> u128 {
        value as u128
    }

    fn new(value: &str) -> (r: Self) {
        CompactStr16::new(value)
    }

    fn try_new(value: &str) -> (r: Result<Self, &'static str>) {
        CompactStr16::try_new(value)
    }

    fn to_str(self) -> (r: String) {
        CompactStr16::to_str(self)
    }

    fn len(self) -> (r: usize) {
        CompactStr16::len(self)
    }

    fn is_empty(self) -> (r: bool) {
        CompactStr16::is_empty(self)
    }

    fn try_from_raw(value: u16) -> (r: Option<Self>) {
        broadcast use CompactStr16::lemma_raw;

        CompactStr16::try_from_raw(value)
    }

    fn from_raw(value: u16) -> (r: Self) {
        broadcast use CompactStr16::lemma_raw;

        CompactStr16::from_raw(value)
    }

    fn from_raw_unchecked(value: u16) -> (r: Self) {
        broadcast use CompactStr16::lemma_raw;

        CompactStr16::from_raw_unchecked(value)
    }

    fn to_raw(self) -> (r: u16) {
        CompactStr16::to_raw(self)
    }

    fn set_ascii(&mut self, idx: usize, value: u8) {
        CompactStr16::set_ascii(self, idx, value)
    }

    fn get_ascii(&self, idx: usize) -> (r: u8) {
        CompactStr16::get_ascii(self, idx)
    }
}

/// A string of up to six characters in a `u32`, five bits to the character, the
/// first character lowest.
#[derive(Debug, Clone, Copy, PartialEq, Eq, PartialOrd, Ord, Hash, Structural)]
pub struct CompactStr32(u32);

impl Default for CompactStr32 {
    fn default() -> (r: Self)
        ensures
            r.spec_to_raw() == 0,
    {
        Self(0)
    }
}

impl CompactStr32 {
    /// The number of characters that fit.
    pub const CAPACITY: usize = 6;

    /// The packed value.
    pub closed spec fn spec_to_raw(self) -> u32 {
        self.0
    }

    /// The string with the packed value `value`, well-formed or not.
    pub closed spec fn spec_from_raw(value: u32) -> Self {
        Self(value)
    }

    /// A string is its packed value and nothing else.
    pub broadcast proof fn lemma_raw(value: u32)
        ensures
            (#[trigger] Self::spec_from_raw(value)).spec_to_raw() == value,
    {
    }

    /// The number of characters.
    pub open spec fn spec_len(self) -> int {
        spec_len(self.spec_to_raw() as u128, 6)
    }

    /// The string of the characters of `value`, a letter in either case
    /// standing for its capital, and an underscore for a space and for
    /// every other character.
    pub fn new(value: &str) -> (r: Self)
        requires
            value.spec_bytes().len() <= 6,
        ensures
            holds(r.spec_to_raw() as u128, sanitized(value.spec_bytes())),
    {
        let raw: u128 = pack(value.as_bytes(), 6);
        proof {
            lemma_holds_fits(raw, sanitized(value.spec_bytes()), 6);
            lemma_fits_u32(raw);
        }
        Self(raw as u32)
    }

    /// The string of the characters of `value`, or the reason why there is
    /// none: more characters than fit, or a character that is no letter,
    /// space or underscore.
    pub fn try_new(value: &str) -> (r: Result<Self, &'static str>)
        ensures
            r is Ok <==> value.spec_bytes().len() <= 6 && all_encodable(value.spec_bytes()),
            r matches Ok(s) ==> holds(s.spec_to_raw() as u128, sanitized(value.spec_bytes())),
            r matches Err(e) ==> e@ == (if value.spec_bytes().len() > 6 {
                TOO_MANY_CHARACTERS@
            } else {
                INVALID_CHARACTERS@
            }),
    {
        match try_pack(value.as_bytes(), 6) {
            Ok(raw) => {
                proof {
                    lemma_holds_fits(raw, sanitized(value.spec_bytes()), 6);
                    lemma_fits_u32(raw);
                }
                Ok(Self(raw as u32))
            },
            Err(e) => Err(e),
        }
    }

    /// The characters, each letter as its capital.
    pub fn to_str(self) -> (r: String)
        ensures
            r@.len() == self.spec_len(),
            forall|i: int|
                0 <= i < r@.len() ==> #[trigger] r@[i] == spec_unencode_char(
                    code_at(self.spec_to_raw() as u128, i),
                ) as char,
    {
        string_from_ascii(unpack(self.0 as u128, 6))
    }

    /// The number of characters.
    pub fn len(self) -> (r: usize)
        ensures
            r == self.spec_len(),
            r <= 6,
    {
        len_of(self.0 as u128, 6)
    }

    /// Whether the string has no character.
    pub fn is_empty(self) -> (r: bool)
        ensures
            r == (self.spec_len() == 0),
    {
        proof {
            lemma_len(self.0 as u128, 6);
        }
        get_raw(self.0 as u128, 0) == 0
    }

    /// The string with the packed value `value`, where that is a string.
    pub fn try_from_raw(value: u32) -> (r: Option<Self>)
        ensures
            r == (if spec_valid(value as u128, 6) {
                Some(Self::spec_from_raw(value))
            } else {
                None
            }),
    {
        if is_valid(value as u128, 6) {
            Some(Self(value))
        } else {
            None
        }
    }

    /// The string with the packed value `value`.
    pub fn from_raw(value: u32) -> (r: Self)
        requires
            spec_valid(value as u128, 6),
        ensures
            r == Self::spec_from_raw(value),
    {
        Self(value)
    }

    /// The string with the packed value `value`, which is not looked at:
    /// with a value that is no string, what the other functions return is
    /// still what their contracts say of the groups of five bits.
    pub fn from_raw_unchecked(value: u32) -> (r: Self)
        ensures
            r == Self::spec_from_raw(value),
    {
        Self(value)
    }

    /// The packed value.
    #[verifier::when_used_as_spec(spec_to_raw)]
    pub fn to_raw(self) -> (r: u32)
        ensures
            r == self.spec_to_raw(),
    {
        self.0
    }

    /// Stores the character `value` at `idx`.
    pub fn set_ascii(&mut self, idx: usize, value: u8)
        requires
            idx < old(self).spec_len(),
            spec_encode_char(value) is Some,
        ensures
            final(self).spec_to_raw() as u128 == with_code(
                old(self).spec_to_raw() as u128,
                idx as int,
                spec_encode_char(value).unwrap(),
            ),
    {
        proof {
            lemma_len(self.0 as u128, 6);
        }
        match encode_char(value) {
            Some(code) => self.set_raw(idx, code),
            None => {},
        }
    }

    /// The character at `idx`, a letter as its capital.
    pub fn get_ascii(&self, idx: usize) -> (r: u8)
        requires
            idx < self.spec_len(),
        ensures
            r == spec_unencode_char(code_at(self.spec_to_raw() as u128, idx as int)),
    {
        proof {
            lemma_len(self.0 as u128, 6);
        }
        unencode_char(self.get_raw(idx))
    }

    fn set_raw(&mut self, idx: usize, val: u8)
        requires
            idx < 6,
        ensures
            final(self).spec_to_raw() as u128 == with_code(
                old(self).spec_to_raw() as u128,
                idx as int,
                val,
            ),
    {
        let raw: u128 = set_raw(self.0 as u128, idx, val);
        proof {
            lemma_with_code_fits_u32(self.0 as u128, idx as int, val);
        }
        self.0 = raw as u32;
    }

    fn get_raw(self, idx: usize) -> (r: u8)
        requires
            idx < 6,
        ensures
            r == code_at(self.spec_to_raw() as u128, idx as int),
            r <= 31,
    {
        get_raw(self.0 as u128, idx)
    }
}

/// What lies below bit 30 is a `u32`.
proof fn lemma_fits_u32(raw: u128)
    requires
        raw >> 30u128 == 0,
    ensures
        raw as u32 as u128 == raw,
{
    assert(raw >> 30u128 == 0 ==> raw as u32 as u128 == raw) by (bit_vector);
}

/// A code stored in one of the groups of a `u32` stays inside it.
proof fn lemma_with_code_fits_u32(raw: u128, idx: int, val: u8)
    requires
        raw as u32 as u128 == raw,
        0 <= idx < 6,
    ensures
        with_code(raw, idx, val) as u32 as u128 == with_code(raw, idx, val),
{
    let s: u128 = (idx * 5) as u128;
    let v: u128 = (val & 0x1f) as u128;
    assert(v <= 31) by (bit_vector)
        requires
            v == (val & 0x1f) as u128,
    ;
    let next = (raw & !(1u128 << s)) | (v << s);
    assert(next as u32 as u128 == next) by (bit_vector)
        requires
            next == (raw & !(1u128 << s)) | (v << s),
            raw as u32 as u128 == raw,
            v <= 31,
            s + 5 <= 30,
    ;
}

impl CompactStr for CompactStr32 {
    type InnerType = u32;

    const CAPACITY: usize = 6;

    open spec fn wide(self) -> u128 {
        self.spec_to_raw() as u128
    }

    open spec fn widened(value: u32) -> u128 {
        value as u128
    }

    fn new(value: &str) -> (r: Self) {
        CompactStr32::new(value)
    }

    fn try_new(value: &str) -> (r: Result<Self, &'static str>) {
        CompactStr32::try_new(value)
    }

    fn to_str(self) -> (r: String) {
        CompactStr32::to_str(self)
    }

    fn len(self) -> (r: usize) {
        CompactStr32::len(self)
    }

    fn is_empty(self) -> (r: bool) {
        CompactStr32::is_empty(self)
    }

    fn try_from_raw(value: u32) -> (r: Option<Self>) {
        broadcast use CompactStr32::lemma_raw;

        CompactStr32::try_from_raw(value)
    }

    fn from_raw(value: u32) -> (r: Self) {
        broadcast use CompactStr32::lemma_raw;

        CompactStr32::from_raw(value)
    }

    fn from_raw_unchecked(value: u32) -> (r: Self) {
        broadcast use CompactStr32::lemma_raw;

        CompactStr32::from_raw_unchecked(value)
    }

    fn to_raw(self) -> (r: u32) {
        CompactStr32::to_raw(self)
    }

    fn set_ascii(&mut self, idx: usize, value: u8) {
        CompactStr32::set_ascii(self, idx, value)
    }

    fn get_ascii(&self, idx: usize) -> (r: u8) {
        CompactStr32::get_ascii(self, idx)
    }
}

/// A string of up to twelve characters in a `u64`, five bits to the character, the
/// first character lowest.
#[derive(Debug, Clone, Copy, PartialEq, Eq, PartialOrd, Ord, Hash, Structural)]
pub struct CompactStr64(u64);

impl Default for CompactStr64 {
    fn default() -> (r: Self)
        ensures
            r.spec_to_raw() == 0,
    {
        Self(0)
    }
}

impl CompactStr64 {
    /// The number of characters that fit.
    pub const CAPACITY: usize = 12;

    /// The packed value.
    pub closed spec fn spec_to_raw(self) -> u64 {
        self.0
    }

    /// The string with the packed value `value`, well-formed or not.
    pub closed spec fn spec_from_raw(value: u64) -> Self {
        Self(value)
    }

    /// A string is its packed value and nothing else.
    pub broadcast proof fn lemma_raw(value: u64)
        ensures
            (#[trigger] Self::spec_from_raw(value)).spec_to_raw() == value,
    {
    }

    /// The number of characters.
    pub open spec fn spec_len(self) -> int {
        spec_len(self.spec_to_raw() as u128, 12)
    }

    /// The string of the characters of `value`, a letter in either case
    /// standing for its capital, and an underscore for a space and for
    /// every other character.
    pub fn new(value: &str) -> (r: Self)
        requires
            value.spec_bytes().len() <= 12,
        ensures
            holds(r.spec_to_raw() as u128, sanitized(value.spec_bytes())),
    {
        let raw: u128 = pack(value.as_bytes(), 12);
        proof {
            lemma_holds_fits(raw, sanitized(value.spec_bytes()), 12);
            lemma_fits_u64(raw);
        }
        Self(raw as u64)
    }

    /// The string of the characters of `value`, or the reason why there is
    /// none: more characters than fit, or a character that is no letter,
    /// space or underscore.
    pub fn try_new(value: &str) -> (r: Result<Self, &'static str>)
        ensures
            r is Ok <==> value.spec_bytes().len() <= 12 && all_encodable(value.spec_bytes()),
            r matches Ok(s) ==> holds(s.spec_to_raw() as u128, sanitized(value.spec_bytes())),
            r matches Err(e) ==> e@ == (if value.spec_bytes().len() > 12 {
                TOO_MANY_CHARACTERS@
            } else {
                INVALID_CHARACTERS@
            }),
    {
        match try_pack(value.as_bytes(), 12) {
            Ok(raw) => {
                proof {
                    lemma_holds_fits(raw, sanitized(value.spec_bytes()), 12);
                    lemma_fits_u64(raw);
                }
                Ok(Self(raw as u64))
            },
            Err(e) => Err(e),
        }
    }

    /// The characters, each letter as its capital.
    pub fn to_str(self) -> (r: String)
        ensures
            r@.len() == self.spec_len(),
            forall|i: int|
                0 <= i < r@.len() ==> #[trigger] r@[i] == spec_unencode_char(
                    code_at(self.spec_to_raw() as u128, i),
                ) as char,
    {
        string_from_ascii(unpack(self.0 as u128, 12))
    }

    /// The number of characters.
    pub fn len(self) -> (r: usize)
        ensures
            r == self.spec_len(),
            r <= 12,
    {
        len_of(self.0 as u128, 12)
    }

    /// Whether the string has no character.
    pub fn is_empty(self) -> (r: bool)
        ensures
            r == (self.spec_len() == 0),
    {
        proof {
            lemma_len(self.0 as u128, 12);
        }
        get_raw(self.0 as u128, 0) == 0
    }

    /// The string with the packed value `value`, where that is a string.
    pub fn try_from_raw(value: u64) -> (r: Option<Self>)
        ensures
            r == (if spec_valid(value as u128, 12) {
                Some(Self::spec_from_raw(value))
            } else {
                None
            }),
    {
        if is_valid(value as u128, 12) {
            Some(Self(value))
        } else {
            None
        }
    }

    /// The string with the packed value `value`.
    pub fn from_raw(value: u64) -> (r: Self)
        requires
            spec_valid(value as u128, 12),
        ensures
            r == Self::spec_from_raw(value),
    {
        Self(value)
    }

    /// The string with the packed value `value`, which is not looked at:
    /// with a value that is no string, what the other functions return is
    /// still what their contracts say of the groups of five bits.
    pub fn from_raw_unchecked(value: u64) -> (r: Self)
        ensures
            r == Self::spec_from_raw(value),
    {
        Self(value)
    }

    /// The packed value.
    #[verifier::when_used_as_spec(spec_to_raw)]
    pub fn to_raw(self) -> (r: u64)
        ensures
            r == self.spec_to_raw(),
    {
        self.0
    }

    /// Stores the character `value` at `idx`.
    pub fn set_ascii(&mut self, idx: usize, value: u8)
        requires
            idx < old(self).spec_len(),
            spec_encode_char(value) is Some,
        ensures
            final(self).spec_to_raw() as u128 == with_code(
                old(self).spec_to_raw() as u128,
                idx as int,
                spec_encode_char(value).unwrap(),
            ),
    {
        proof {
            lemma_len(self.0 as u128, 12);
        }
        match encode_char(value) {
            Some(code) => self.set_raw(idx, code),
            None => {},
        }
    }

    /// The character at `idx`, a letter as its capital.
    pub fn get_ascii(&self, idx: usize) -> (r: u8)
        requires
            idx < self.spec_len(),
        ensures
            r == spec_unencode_char(code_at(self.spec_to_raw() as u128, idx as int)),
    {
        proof {
            lemma_len(self.0 as u128, 12);
        }
        unencode_char(self.get_raw(idx))
    }

    fn set_raw(&mut self, idx: usize, val: u8)
        requires
            idx < 12,
        ensures
            final(self).spec_to_raw() as u128 == with_code(
                old(self).spec_to_raw() as u128,
                idx as int,
                val,
            ),
    {
        let raw: u128 = set_raw(self.0 as u128, idx, val);
        proof {
            lemma_with_code_fits_u64(self.0 as u128, idx as int, val);
        }
        self.0 = raw as u64;
    }

    fn get_raw(self, idx: usize) -> (r: u8)
        requires
            idx < 12,
        ensures
            r == code_at(self.spec_to_raw() as u128, idx as int),
            r <= 31,
    {
        get_raw(self.0 as u128, idx)
    }
}

/// What lies below bit 60 is a `u64`.
proof fn lemma_fits_u64(raw: u128)
    requires
        raw >> 60u128 == 0,
    ensures
        raw as u64 as u128 == raw,
{
    assert(raw >> 60u128 == 0 ==> raw as u64 as u128 == raw) by (bit_vector);
}

/// A code stored in one of the groups of a `u64` stays inside it.
proof fn lemma_with_code_fits_u64(raw: u128, idx: int, val: u8)
    requires
        raw as u64 as u128 == raw,
        0 <= idx < 12,
    ensures
        with_code(raw, idx, val) as u64 as u128 == with_code(raw, idx, val),
{
    let s: u128 = (idx * 5) as u128;
    let v: u128 = (val & 0x1f) as u128;
    assert(v <= 31) by (bit_vector)
        requires
            v == (val & 0x1f) as u128,
    ;
    let next = (raw & !(1u128 << s)) | (v << s);
    assert(next as u64 as u128 == next) by (bit_vector)
        requires
            next == (raw & !(1u128 << s)) | (v << s),
            raw as u64 as u128 == raw,
            v <= 31,
            s + 5 <= 60,
    ;
}

impl CompactStr for CompactStr64 {
    type InnerType = u64;

    const CAPACITY: usize = 12;

    open spec fn wide(self) -> u128 {
        self.spec_to_raw() as u128
    }

    open spec fn widened(value: u64) -> u128 {
        value as u128
    }

    fn new(value: &str) -> (r: Self) {
        CompactStr64::new(value)
    }

    fn try_new(value: &str) -> (r: Result<Self, &'static str>) {
        CompactStr64::try_new(value)
    }

    fn to_str(self) -> (r: String) {
        CompactStr64::to_str(self)
    }

    fn len(self) -> (r: usize) {
        CompactStr64::len(self)
    }

    fn is_empty(self) -> (r: bool) {
        CompactStr64::is_empty(self)
    }

    fn try_from_raw(value: u64) -> (r: Option<Self>) {
        broadcast use CompactStr64::lemma_raw;

        CompactStr64::try_from_raw(value)
    }

    fn from_raw(value: u64) -> (r: Self) {
        broadcast use CompactStr64::lemma_raw;

        CompactStr64::from_raw(value)
    }

    fn from_raw_unchecked(value: u64) -> (r: Self) {
        broadcast use CompactStr64::lemma_raw;

        CompactStr64::from_raw_unchecked(value)
    }

    fn to_raw(self) -> (r: u64) {
        CompactStr64::to_raw(self)
    }

    fn set_ascii(&mut self, idx: usize, value: u8) {
        CompactStr64::set_ascii(self, idx, value)
    }

    fn get_ascii(&self, idx: usize) -> (r: u8) {
        CompactStr64::get_ascii(self, idx)
    }
}

/// A string of up to twenty-five characters in a `u128`, five bits to the character, the
/// first character lowest.
#[derive(Debug, Clone, Copy, PartialEq, Eq, PartialOrd, Ord, Hash, Structural)]
pub struct CompactStr128(u128);

impl Default for CompactStr128 {
    fn default() -> (r: Self)
        ensures
            r.spec_to_raw() == 0,
    {
        Self(0)
    }
}

impl CompactStr128 {
    /// The number of characters that fit.
    pub const CAPACITY: usize = 25;

    /// The packed value.
    pub closed spec fn spec_to_raw(self) -> u128 {
        self.0
    }

    /// The string with the packed value `value`, well-formed or not.
    pub closed spec fn spec_from_raw(value: u128) -> Self {
        Self(value)
    }

    /// A string is its packed value and nothing else.
    pub broadcast proof fn lemma_raw(value: u128)
        ensures
            (#[trigger] Self::spec_from_raw(value)).spec_to_raw() == value,
    {
    }

    /// The number of characters.
    pub open spec fn spec_len(self) -> int {
        spec_len(self.spec_to_raw() as u128, 25)
    }

    /// The string of the characters of `value`, a letter in either case
    /// standing for its capital, and an underscore for a space and for
    /// every other character.
    pub fn new(value: &str) -> (r: Self)
        requires
            value.spec_bytes().len() <= 25,
        ensures
            holds(r.spec_to_raw() as u128, sanitized(value.spec_bytes())),
    {
        let raw: u128 = pack(value.as_bytes(), 25);
        proof {
            lemma_holds_fits(raw, sanitized(value.spec_bytes()), 25);
            lemma_fits_u128(raw);
        }
        Self(raw as u128)
    }

    /// The string of the characters of `value`, or the reason why there is
    /// none: more characters than fit, or a character that is no letter,
    /// space or underscore.
    pub fn try_new(value: &str) -> (r: Result<Self, &'static str>)
        ensures
            r is Ok <==> value.spec_bytes().len() <= 25 && all_encodable(value.spec_bytes()),
            r matches Ok(s) ==> holds(s.spec_to_raw() as u128, sanitized(value.spec_bytes())),
            r matches Err(e) ==> e@ == (if value.spec_bytes().len() > 25 {
                TOO_MANY_CHARACTERS@
            } else {
                INVALID_CHARACTERS@
            }),
    {
        match try_pack(value.as_bytes(), 25) {
            Ok(raw) => {
                proof {
                    lemma_holds_fits(raw, sanitized(value.spec_bytes()), 25);
                    lemma_fits_u128(raw);
                }
                Ok(Self(raw as u128))
            },
            Err(e) => Err(e),
        }
    }

    /// The characters, each letter as its capital.
    pub fn to_str(self) -> (r: String)
        ensures
            r@.len() == self.spec_len(),
            forall|i: int|
                0 <= i < r@.len() ==> #[trigger] r@[i] == spec_unencode_char(
                    code_at(self.spec_to_raw() as u128, i),
                ) as char,
    {
        string_from_ascii(unpack(self.0 as u128, 25))
    }

    /// The number of characters.
    pub fn len(self) -> (r: usize)
        ensures
            r == self.spec_len(),
            r <= 25,
    {
        len_of(self.0 as u128, 25)
    }

    /// Whether the string has no character.
    pub fn is_empty(self) -> (r: bool)
        ensures
            r == (self.spec_len() == 0),
    {
        proof {
            lemma_len(self.0 as u128, 25);
        }
        get_raw(self.0 as u128, 0) == 0
    }

    /// The string with the packed value `value`, where that is a string.
    pub fn try_from_raw(value: u128) -> (r: Option<Self>)
        ensures
            r == (if spec_valid(value as u128, 25) {
                Some(Self::spec_from_raw(value))
            } else {
                None
            }),
    {
        if is_valid(value as u128, 25) {
            Some(Self(value))
        } else {
            None
        }
    }

    /// The string with the packed value `value`.
    pub fn from_raw(value: u128) -> (r: Self)
        requires
            spec_valid(value as u128, 25),
        ensures
            r == Self::spec_from_raw(value),
    {
        Self(value)
    }

    /// The string with the packed value `value`, which is not looked at:
    /// with a value that is no string, what the other functions return is
    /// still what their contracts say of the groups of five bits.
    pub fn from_raw_unchecked(value: u128) -> (r: Self)
        ensures
            r == Self::spec_from_raw(value),
    {
        Self(value)
    }

    /// The packed value.
    #[verifier::when_used_as_spec(spec_to_raw)]
    pub fn to_raw(self) -> (r: u128)
        ensures
            r == self.spec_to_raw(),
    {
        self.0
    }

    /// Stores the character `value` at `idx`.
    pub fn set_ascii(&mut self, idx: usize, value: u8)
        requires
            idx < old(self).spec_len(),
            spec_encode_char(value) is Some,
        ensures
            final(self).spec_to_raw() as u128 == with_code(
                old(self).spec_to_raw() as u128,
                idx as int,
                spec_encode_char(value).unwrap(),
            ),
    {
        proof {
            lemma_len(self.0 as u128, 25);
        }
        match encode_char(value) {
            Some(code) => self.set_raw(idx, code),
            None => {},
        }
    }

    /// The character at `idx`, a letter as its capital.
    pub fn get_ascii(&self, idx: usize) -> (r: u8)
        requires
            idx < self.spec_len(),
        ensures
            r == spec_unencode_char(code_at(self.spec_to_raw() as u128, idx as int)),
    {
        proof {
            lemma_len(self.0 as u128, 25);
        }
        unencode_char(self.get_raw(idx))
    }

    fn set_raw(&mut self, idx: usize, val: u8)
        requires
            idx < 25,
        ensures
            final(self).spec_to_raw() as u128 == with_code(
                old(self).spec_to_raw() as u128,
                idx as int,
                val,
            ),
    {
        let raw: u128 = set_raw(self.0 as u128, idx, val);
        proof {
            lemma_with_code_fits_u128(self.0 as u128, idx as int, val);
        }
        self.0 = raw as u128;
    }

    fn get_raw(self, idx: usize) -> (r: u8)
        requires
            idx < 25,
        ensures
            r == code_at(self.spec_to_raw() as u128, idx as int),
            r <= 31,
    {
        get_raw(self.0 as u128, idx)
    }
}

/// What lies below bit 125 is a `u128`.
proof fn lemma_fits_u128(raw: u128)
    requires
        raw >> 125u128 == 0,
    ensures
        raw as u128 as u128 == raw,
{
    assert(raw >> 125u128 == 0 ==> raw as u128 as u128 == raw) by (bit_vector);
}

/// A code stored in one of the groups of a `u128` stays inside it.
proof fn lemma_with_code_fits_u128(raw: u128, idx: int, val: u8)
    requires
        raw as u128 as u128 == raw,
        0 <= idx < 25,
    ensures
        with_code(raw, idx, val) as u128 as u128 == with_code(raw, idx, val),
{
    let s: u128 = (idx * 5) as u128;
    let v: u128 = (val & 0x1f) as u128;
    assert(v <= 31) by (bit_vector)
        requires
            v == (val & 0x1f) as u128,
    ;
    let next = (raw & !(1u128 << s)) | (v << s);
    assert(next as u128 as u128 == next) by (bit_vector)
        requires
            next == (raw & !(1u128 << s)) | (v << s),
            raw as u128 as u128 == raw,
            v <= 31,
            s + 5 <= 125,
    ;
}

impl CompactStr for CompactStr128 {
    type InnerType = u128;

    const CAPACITY: usize = 25;

    open spec fn wide(self) -> u128 {
        self.spec_to_raw() as u128
    }

    open spec fn widened(value: u128) -> u128 {
        value as u128
    }

    fn new(value: &str) -> (r: Self) {
        CompactStr128::new(value)
    }

    fn try_new(value: &str) -> (r: Result<Self, &'static str>) {
        CompactStr128::try_new(value)
    }

    fn to_str(self) -> (r: String) {
        CompactStr128::to_str(self)
    }

    fn len(self) -> (r: usize) {
        CompactStr128::len(self)
    }

    fn is_empty(self) -> (r: bool) {
        CompactStr128::is_empty(self)
    }

    fn try_from_raw(value: u128) -> (r: Option<Self>) {
        broadcast use CompactStr128::lemma_raw;

        CompactStr128::try_from_raw(value)
    }

    fn from_raw(value: u128) -> (r: Self) {
        broadcast use CompactStr128::lemma_raw;

        CompactStr128::from_raw(value)
    }

    fn from_raw_unchecked(value: u128) -> (r: Self) {
        broadcast use CompactStr128::lemma_raw;

        CompactStr128::from_raw_unchecked(value)
    }

    fn to_raw(self) -> (r: u128) {
        CompactStr128::to_raw(self)
    }

    fn set_ascii(&mut self, idx: usize, value: u8) {
        CompactStr128::set_ascii(self, idx, value)
    }

    fn get_ascii(&self, idx: usize) -> (r: u8) {
        CompactStr128::get_ascii(self, idx)
    }
}

} // verus!
