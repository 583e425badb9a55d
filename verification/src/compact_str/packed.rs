use vstd::prelude::*;

verus! {

/// The code of a character: `2` to `27` for a letter of either case, `1`
/// for a space or an underscore, and none for any other byte.
pub open spec fn spec_encode_char(value: u8) -> Option<u8> {
    if 97 <= value <= 122 {
        Some((value - 95) as u8)
    } else if 65 <= value <= 90 {
        Some((value - 63) as u8)
    } else if value == 32 || value == 95 {
        Some(1u8)
    } else {
        None
    }
}

/// The code of a character, with `1` in place of a byte that has none.
pub open spec fn spec_sanitize_char(value: u8) -> u8 {
    match spec_encode_char(value) {
        Some(code) => code,
        None => 1,
    }
}

/// The character of a code: nothing for `0`, an underscore for `1`, and
/// from `2` on the capital letters and what follows them.
pub open spec fn spec_unencode_char(value: u8) -> u8 {
    if value == 0 {
        0
    } else if value == 1 {
        95
    } else {
        (value + 63) as u8
    }
}

/// The code of the byte `value`, if it has one.
pub fn encode_char(value: u8) -> (r: Option<u8>)
    ensures
        r == spec_encode_char(value),
        r matches Some(code) ==> 1 <= code <= 27,
{
    if 97 <= value && value <= 122 {
        Some(value - 95)
    } else if 65 <= value && value <= 90 {
        Some(value - 63)
    } else if value == 32 || value == 95 {
        Some(1)
    } else {
        None
    }
}

/// The byte that the code `value` stands for.
pub fn unencode_char(value: u8) -> (r: u8)
    requires
        value <= 31,
    ensures
        r == spec_unencode_char(value),
        r < 128,
{
    if value == 0 {
        0
    } else if value == 1 {
        95
    } else {
        value + 63
    }
}

/// The group of five bits with the number `idx`, counted from the low end.
pub open spec fn code_at(raw: u128, idx: int) -> u8 {
    ((raw >> ((idx * 5) as u128)) & 0x1f) as u8
}

/// `raw` after a code was stored in the group `idx`: the lowest bit of the
/// group is cleared and the code is or-ed in, so a group that held `0` or
/// `1` holds the code.
pub open spec fn with_code(raw: u128, idx: int, val: u8) -> u128 {
    (raw & !(1u128 << ((idx * 5) as u128))) | (((val & 0x1f) as u128) << ((idx * 5) as u128))
}

/// The number of groups before the first that holds `0`, among the first
/// `capacity`.
pub open spec fn spec_len(raw: u128, capacity: int) -> int
    decreases capacity,
{
    if capacity <= 0 {
        0
    } else {
        let before = spec_len(raw, capacity - 1);
        if before == capacity - 1 && code_at(raw, capacity - 1) != 0 {
            capacity
        } else {
            before
        }
    }
}

/// Whether `raw` is a string of at most `capacity` characters: no group
/// before the first empty one holds more than `27`, and every group behind
/// it is empty too.
pub open spec fn spec_valid(raw: u128, capacity: int) -> bool {
    forall|i: int|
        0 <= i < capacity ==> (#[trigger] code_at(raw, i)) <= (if i < spec_len(raw, capacity) {
            27u8
        } else {
            0u8
        })
}

/// Whether `raw` holds the codes `codes` in its first groups and nothing
/// above them.
pub open spec fn holds(raw: u128, codes: Seq<u8>) -> bool {
    &&& forall|i: int| 0 <= i < codes.len() ==> #[trigger] code_at(raw, i) == codes[i]
    &&& raw >> ((codes.len() * 5) as u128) == 0
}

/// The length is the first group that is empty: every group before it is
/// not, and it is the capacity where no group is empty.
pub proof fn lemma_len(raw: u128, capacity: int)
    requires
        0 <= capacity,
    ensures
        0 <= spec_len(raw, capacity) <= capacity,
        forall|i: int| 0 <= i < spec_len(raw, capacity) ==> #[trigger] code_at(raw, i) != 0,
        spec_len(raw, capacity) < capacity ==> code_at(raw, spec_len(raw, capacity)) == 0,
    decreases capacity,
{
    if capacity > 0 {
        lemma_len(raw, capacity - 1);
    }
}

/// The group `idx` of `raw`.
pub fn get_raw(raw: u128, idx: usize) -> (r: u8)
    requires
        idx <= 24,
    ensures
        r == code_at(raw, idx as int),
        r <= 31,
{
    let shift: u128 = (idx * 5) as u128;
    let group: u128 = (raw >> shift) & 0x1f;
    assert(group <= 31) by (bit_vector)
        requires
            group == (raw >> shift) & 0x1f,
    ;
    group as u8
}

/// `raw` with the code `val` stored in the group `idx`.
pub fn set_raw(raw: u128, idx: usize, val: u8) -> (r: u128)
    requires
        idx <= 24,
    ensures
        r == with_code(raw, idx as int, val),
{
    let shift: u128 = (idx * 5) as u128;
    let msk: u128 = 1u128 << shift;
    let code: u128 = ((val & 0x1f) as u128) << shift;
    (raw & !msk) | code
}

/// Storing a code in a group touches no other group, and lets a group that
/// was empty hold the code. What lies below the top of the group stays
/// below it.
pub proof fn lemma_with_code(raw: u128, idx: int, val: u8)
    requires
        0 <= idx <= 24,
    ensures
        forall|j: int|
            0 <= j <= 24 && j != idx ==> #[trigger] code_at(with_code(raw, idx, val), j)
                == code_at(raw, j),
        code_at(raw, idx) <= 1 ==> code_at(with_code(raw, idx, val), idx) == val & 0x1f,
        raw >> ((idx * 5) as u128) == 0 ==> with_code(raw, idx, val) >> ((idx * 5 + 5) as u128)
            == 0,
{
    let s: u128 = (idx * 5) as u128;
    let v: u128 = (val & 0x1f) as u128;
    assert(v <= 31) by (bit_vector)
        requires
            v == (val & 0x1f) as u128,
    ;
    let next = (raw & !(1u128 << s)) | (v << s);
    assert forall|j: int| 0 <= j <= 24 && j != idx implies #[trigger] code_at(
        with_code(raw, idx, val),
        j,
    ) == code_at(raw, j) by {
        let t: u128 = (j * 5) as u128;
        assert(((next >> t) & 0x1f) == ((raw >> t) & 0x1f)) by (bit_vector)
            requires
                next == (raw & !(1u128 << s)) | (v << s),
                v <= 31,
                s <= 120,
                t <= 120,
                t + 5 <= s || s + 5 <= t,
        ;
    }
    assert(((raw >> s) & 0x1f) <= 1 ==> ((next >> s) & 0x1f) == v) by (bit_vector)
        requires
            next == (raw & !(1u128 << s)) | (v << s),
            v <= 31,
            s <= 120,
    ;
    assert(raw >> s == 0 ==> next >> ((s + 5) as u128) == 0) by (bit_vector)
        requires
            next == (raw & !(1u128 << s)) | (v << s),
            v <= 31,
            s <= 120,
    ;
    let before: u128 = (raw >> s) & 0x1f;
    let after: u128 = (next >> s) & 0x1f;
    assert(before <= 31 && after <= 31) by (bit_vector)
        requires
            before == (raw >> s) & 0x1f,
            after == (next >> s) & 0x1f,
    ;
}

/// The message for a string that is longer than the capacity.
pub const TOO_MANY_CHARACTERS: &'static str = "String contains too many characters.";

/// The message for a string that holds a byte without a code.
pub const INVALID_CHARACTERS: &'static str = "String contains invalid characters.";

/// Whether every byte of `bytes` has a code.
pub open spec fn all_encodable(bytes: Seq<u8>) -> bool {
    forall|i: int| 0 <= i < bytes.len() ==> (#[trigger] spec_encode_char(bytes[i])) is Some
}

/// The codes of `bytes`, with `1` for a byte that has none.
pub open spec fn sanitized(bytes: Seq<u8>) -> Seq<u8> {
    Seq::new(bytes.len(), |i: int| spec_sanitize_char(bytes[i]))
}

/// Packs the codes of `bytes`, the first byte lowest. Fails on more bytes
/// than `capacity` and on a byte without a code.
pub fn try_pack(bytes: &[u8], capacity: usize) -> (r: Result<u128, &'static str>)
    requires
        capacity <= 25,
    ensures
        r is Ok <==> bytes@.len() <= capacity && all_encodable(bytes@),
        r matches Ok(raw) ==> holds(raw, sanitized(bytes@)),
        r matches Err(e) ==> e@ == (if bytes@.len() > capacity {
            TOO_MANY_CHARACTERS@
        } else {
            INVALID_CHARACTERS@
        }),
{
    if bytes.len() > capacity {
        return Err(TOO_MANY_CHARACTERS);
    }
    let mut result: u128 = 0;
    let mut i: usize = 0;
    assert(0u128 >> 0u128 == 0) by (bit_vector);
    while i < bytes.len()
        invariant
            i <= bytes@.len() <= capacity <= 25,
            holds(result, sanitized(bytes@).take(i as int)),
            all_encodable(bytes@.take(i as int)),
        decreases bytes@.len() - i,
    {
        match encode_char(bytes[i]) {
            Some(val) => {
                proof {
                    lemma_with_code(result, i as int, val);
                    assert(val & 0x1f == val) by (bit_vector)
                        requires
                            val <= 27,
                    ;
                    assert(result >> ((i * 5) as u128) == 0 ==> (result >> ((i * 5) as u128))
                        & 0x1f == 0) by (bit_vector);
                }
                result = set_raw(result, i, val);
                proof {
                    let codes = sanitized(bytes@).take(i + 1);
                    assert forall|k: int| 0 <= k < codes.len() implies #[trigger] code_at(
                        result,
                        k,
                    ) == codes[k] by {}
                    assert forall|k: int| 0 <= k < i + 1 implies (#[trigger] spec_encode_char(
                        bytes@.take(i + 1)[k],
                    )) is Some by {}
                }
                i += 1;
            },
            None => {
                return Err(INVALID_CHARACTERS);
            },
        }
    }
    proof {
        assert(bytes@.take(bytes@.len() as int) =~= bytes@);
    }
    Ok(result)
}

/// Packs the codes of `bytes`, the first byte lowest, with `1` for every
/// byte that has no code.
pub fn pack(bytes: &[u8], capacity: usize) -> (raw: u128)
    requires
        bytes@.len() <= capacity <= 25,
    ensures
        holds(raw, sanitized(bytes@)),
{
    let mut result: u128 = 0;
    let mut i: usize = 0;
    assert(0u128 >> 0u128 == 0) by (bit_vector);
    while i < bytes.len()
        invariant
            i <= bytes@.len() <= capacity <= 25,
            holds(result, sanitized(bytes@).take(i as int)),
        decreases bytes@.len() - i,
    {
        let val: u8 = match encode_char(bytes[i]) {
            Some(val) => val,
            None => 1,
        };
        proof {
            lemma_with_code(result, i as int, val);
            assert(val & 0x1f == val) by (bit_vector)
                requires
                    val <= 27,
            ;
            assert(result >> ((i * 5) as u128) == 0 ==> (result >> ((i * 5) as u128)) & 0x1f
                == 0) by (bit_vector);
        }
        result = set_raw(result, i, val);
        proof {
            let codes = sanitized(bytes@).take(i + 1);
            assert forall|k: int| 0 <= k < codes.len() implies #[trigger] code_at(result, k)
                == codes[k] by {}
        }
        i += 1;
    }
    result
}

/// The number of characters: the groups before the first empty one.
pub fn len_of(raw: u128, capacity: usize) -> (r: usize)
    requires
        capacity <= 25,
    ensures
        r == spec_len(raw, capacity as int),
        r <= capacity,
{
    let mut i: usize = 0;
    while i < capacity
        invariant
            i <= capacity <= 25,
            spec_len(raw, i as int) == i,
        decreases capacity - i,
    {
        if get_raw(raw, i) == 0 {
            proof {
                lemma_len_stops(raw, i as int, capacity as int);
            }
            return i;
        }
        i += 1;
    }
    capacity
}

/// Behind an empty group the length grows no more.
proof fn lemma_len_stops(raw: u128, at: int, capacity: int)
    requires
        0 <= at < capacity,
        spec_len(raw, at) == at,
        code_at(raw, at) == 0,
    ensures
        spec_len(raw, capacity) == at,
    decreases capacity,
{
    if capacity > at + 1 {
        lemma_len_stops(raw, at, capacity - 1);
    }
}

/// Whether `raw` is a string of at most `capacity` characters.
pub fn is_valid(raw: u128, capacity: usize) -> (r: bool)
    requires
        capacity <= 25,
    ensures
        r == spec_valid(raw, capacity as int),
{
    let len: usize = len_of(raw, capacity);
    let mut i: usize = 0;
    while i < capacity
        invariant
            i <= capacity <= 25,
            len == spec_len(raw, capacity as int),
            forall|k: int|
                0 <= k < i ==> (#[trigger] code_at(raw, k)) <= (if k < len {
                    27u8
                } else {
                    0u8
                }),
        decreases capacity - i,
    {
        let code: u8 = get_raw(raw, i);
        let limit: u8 = if i < len {
            27
        } else {
            0
        };
        if code > limit {
            return false;
        }
        i += 1;
    }
    true
}

/// The characters of `raw`, one byte each.
pub fn unpack(raw: u128, capacity: usize) -> (r: Vec<u8>)
    requires
        capacity <= 25,
    ensures
        r@.len() == spec_len(raw, capacity as int),
        forall|i: int| 0 <= i < r@.len() ==> #[trigger] r@[i] == spec_unencode_char(code_at(raw, i)),
        forall|i: int| 0 <= i < r@.len() ==> (#[trigger] r@[i]) < 128,
{
    let len: usize = len_of(raw, capacity);
    let mut result: Vec<u8> = Vec::with_capacity(len);
    let mut i: usize = 0;
    while i < len
        invariant
            i <= len <= capacity <= 25,
            result@.len() == i,
            forall|k: int|
                0 <= k < i ==> #[trigger] result@[k] == spec_unencode_char(code_at(raw, k)),
            forall|k: int| 0 <= k < i ==> (#[trigger] result@[k]) < 128,
        decreases len - i,
    {
        result.push(unencode_char(get_raw(raw, i)));
        i += 1;
    }
    result
}

} // verus!
