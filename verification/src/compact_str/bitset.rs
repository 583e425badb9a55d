use vstd::prelude::*;

verus! {

/// The mask of the low bits that a field of `index + 1` bits keeps. A field
/// of seven bits keeps five.
pub const VALUE_MASKS: [u8; 8] = [
    0b0000_0001,
    0b0000_0011,
    0b0000_0111,
    0b0000_1111,
    0b0001_1111,
    0b0011_1111,
    0b0001_1111,
    0b1111_1111,
];

/// The number of low bits that a field of `count` bits keeps: all of them,
/// but five for a field of seven.
pub open spec fn kept_bits(count: int) -> int {
    if count == 7 {
        5
    } else {
        count
    }
}

/// Two to the power `n`, for `n` up to eight.
pub open spec fn pow2(n: int) -> int {
    if n <= 0 {
        1
    } else if n == 1 {
        2
    } else if n == 2 {
        4
    } else if n == 3 {
        8
    } else if n == 4 {
        16
    } else if n == 5 {
        32
    } else if n == 6 {
        64
    } else if n == 7 {
        128
    } else {
        256
    }
}

/// The field of `count` bits that starts `offset` bits below the top of
/// `byte`, cut down to the bits that are kept.
pub open spec fn field(byte: u8, offset: int, count: int) -> int {
    (byte as int / pow2(8 - offset - count)) % pow2(kept_bits(count))
}

/// `byte` with the kept bits of that field replaced by those of `value`.
pub open spec fn with_field(byte: u8, offset: int, count: int, value: u8) -> int {
    byte as int - field(byte, offset, count) * pow2(8 - offset - count) + (value as int % pow2(
        kept_bits(count),
    )) * pow2(8 - offset - count)
}

/// A string of `N * 8` bits, the first bit being the top bit of the first
/// byte.
#[derive(Debug, Copy, Clone, Ord, PartialOrd, Eq, PartialEq, Hash)]
pub struct BitSet<const N: usize>(pub [u8; N]);

/// The mask for a field of `count` bits.
fn value_mask(count: usize) -> (m: u8)
    requires
        1 <= count <= 8,
    ensures
        m as int == pow2(kept_bits(count as int)) - 1,
{
    VALUE_MASKS[count - 1]
}

/// `arr[idx]` with the field of `count` bits at `offset` set from `value`.
pub fn do_encode(arr: &[u8], idx: usize, offset: usize, count: usize, value: u8) -> (r: u8)
    requires
        idx < arr@.len(),
        1 <= count,
        offset + count <= 8,
    ensures
        r as int == with_field(arr@[idx as int], offset as int, count as int, value),
{
    let m: u8 = value_mask(count);
    let shift: usize = (8 - offset) - count;
    let byte: u8 = arr[idx];
    let mask: u8 = !(m << shift);
    let shifted: u8 = (value & m) << shift;
    proof {
        lemma_encode(byte, m, shift as u8, value, kept_bits(count as int) as u8);
    }
    (byte & mask) | shifted
}

/// The field of `count` bits at `offset` in `arr[idx]`.
pub fn do_decode(arr: &[u8], idx: usize, offset: usize, count: usize) -> (r: u8)
    requires
        idx < arr@.len(),
        1 <= count,
        offset + count <= 8,
    ensures
        r as int == field(arr@[idx as int], offset as int, count as int),
{
    let m: u8 = value_mask(count);
    let shift: usize = (8 - offset) - count;
    let byte: u8 = arr[idx];
    proof {
        lemma_decode(byte, m, shift as u8, kept_bits(count as int) as u8);
    }
    (byte >> shift) & m
}

/// Two to the power `n` as a byte-sized shift.
proof fn lemma_pow2_shift(n: u8)
    requires
        n <= 8,
    ensures
        pow2(n as int) == (1u16 << (n as u16)) as int,
{
    assert(1u16 << 0u16 == 1) by (bit_vector);
    assert(1u16 << 1u16 == 2) by (bit_vector);
    assert(1u16 << 2u16 == 4) by (bit_vector);
    assert(1u16 << 3u16 == 8) by (bit_vector);
    assert(1u16 << 4u16 == 16) by (bit_vector);
    assert(1u16 << 5u16 == 32) by (bit_vector);
    assert(1u16 << 6u16 == 64) by (bit_vector);
    assert(1u16 << 7u16 == 128) by (bit_vector);
    assert(1u16 << 8u16 == 256) by (bit_vector);
}

/// Shifting down and masking is dividing and taking the remainder.
proof fn lemma_decode(byte: u8, m: u8, shift: u8, kept: u8)
    requires
        shift + kept <= 8,
        m as int == pow2(kept as int) - 1,
    ensures
        ((byte >> shift) & m) as int == (byte as int / pow2(shift as int)) % pow2(kept as int),
{
    lemma_pow2_shift(shift);
    lemma_pow2_shift(kept);
    let b: u16 = byte as u16;
    let s: u16 = shift as u16;
    let k: u16 = kept as u16;
    let mm: u16 = m as u16;
    assert(((b >> s) & (((1u16 << k) - 1) as u16)) == (b / (1u16 << s)) % (1u16 << k))
        by (bit_vector)
        requires
            b < 256,
            s + k <= 8,
    ;
    assert(((byte >> shift) & m) as u16 == (b >> s) & mm) by (bit_vector)
        requires
            b == byte as u16,
            s == shift as u16,
            mm == m as u16,
            shift <= 8,
    ;
}

/// Clearing a field and setting it from a value, in arithmetic.
proof fn lemma_encode(byte: u8, m: u8, shift: u8, value: u8, kept: u8)
    requires
        shift + kept <= 8,
        m as int == pow2(kept as int) - 1,
    ensures
        ((byte & !(m << shift)) | ((value & m) << shift)) as int == byte as int - ((byte as int
            / pow2(shift as int)) % pow2(kept as int)) * pow2(shift as int) + (value as int
            % pow2(kept as int)) * pow2(shift as int),
{
    lemma_pow2_shift(shift);
    lemma_pow2_shift(kept);
    let b: u16 = byte as u16;
    let v: u16 = value as u16;
    let s: u16 = shift as u16;
    let k: u16 = kept as u16;
    let mm: u16 = m as u16;
    let r: u16 = ((byte & !(m << shift)) | ((value & m) << shift)) as u16;
    assert(r == (b & !(mm << s) & 0xff) | (((v & mm) << s) & 0xff)) by (bit_vector)
        requires
            r == ((byte & !(m << shift)) | ((value & m) << shift)) as u16,
            b == byte as u16,
            v == value as u16,
            s == shift as u16,
            mm == m as u16,
            shift <= 8,
    ;
    let old_field: u16 = (b / (1u16 << s)) % (1u16 << k);
    let new_field: u16 = v % (1u16 << k);
    assert({
        &&& old_field * (1u16 << s) <= b
        &&& new_field * (1u16 << s) <= 255
        &&& b - old_field * (1u16 << s) + new_field * (1u16 << s) <= 255
        &&& (b & !(mm << s) & 0xff) | (((v & mm) << s) & 0xff) == (b - old_field * (1u16 << s)
            + new_field * (1u16 << s)) as u16
    }) by (bit_vector)
        requires
            b < 256,
            v < 256,
            s + k <= 8,
            mm == ((1u16 << k) - 1) as u16,
            old_field == (b / (1u16 << s)) % (1u16 << k),
            new_field == v % (1u16 << k),
    ;
}

/// The bytes after a field of `bit_width` bits, `offset` bits from the
/// start, was set from `value`. A field that crosses into the next byte is
/// written in two parts, the high bits of `value` first.
pub open spec fn spec_write_bits(bytes: Seq<u8>, offset: int, bit_width: int, value: u8) -> Seq<
    u8,
> {
    let byte_from = offset / 8;
    let bit_from = offset % 8;
    if bit_from + bit_width <= 8 {
        bytes.update(byte_from, with_field(bytes[byte_from], bit_from, bit_width, value) as u8)
    } else {
        let first = 8 - bit_from;
        let second = bit_width - first;
        let high = (value as int / pow2(second)) as u8;
        bytes.update(byte_from, with_field(bytes[byte_from], bit_from, first, high) as u8).update(
            byte_from + 1,
            with_field(bytes[byte_from + 1], 0, second, value) as u8,
        )
    }
}

/// The field of `count` bits, `offset` bits from the start. A field that
/// crosses into the next byte is read in two parts; past the last byte the
/// bits read as zero.
pub open spec fn spec_read_bits(bytes: Seq<u8>, offset: int, count: int) -> int {
    let byte_from = offset / 8;
    let bit_from = offset % 8;
    if bit_from + count <= 8 {
        field(bytes[byte_from], bit_from, count)
    } else {
        let first = 8 - bit_from;
        let second = count - first;
        field(bytes[byte_from], bit_from, first) * pow2(second) + if byte_from + 1 < bytes.len() {
            field(bytes[byte_from + 1], 0, second)
        } else {
            0
        }
    }
}

/// Whether a field of `bit_width` bits at `offset` lies within `len` bytes.
pub open spec fn field_fits(len: int, offset: int, bit_width: int) -> bool {
    &&& 0 <= offset
    &&& offset / 8 < len
    &&& offset % 8 + bit_width > 8 ==> offset / 8 + 1 < len
}

/// The bytes after the first `k` bytes of `buffer` were written as fields
/// of `bit_width` bits each, one behind the other, into `len` zero bytes.
pub open spec fn filled(buffer: Seq<u8>, bit_width: int, len: int, k: int) -> Seq<u8>
    decreases k,
{
    if k <= 0 {
        Seq::new(len as nat, |i: int| 0u8)
    } else {
        spec_write_bits(
            filled(buffer, bit_width, len, k - 1),
            (k - 1) * bit_width,
            bit_width,
            buffer[k - 1],
        )
    }
}

/// The number of fields that `from_buffer` writes: one for each byte up to
/// `max_bytes`, as long as a field starts inside the set.
pub open spec fn fields_written(max_bytes: int, bit_width: int, len: int) -> int {
    let room = (len * 8 + bit_width - 1) / bit_width;
    if max_bytes <= room {
        max_bytes
    } else {
        room
    }
}

impl<const N: usize> View for BitSet<N> {
    type V = Seq<u8>;

    open spec fn view(&self) -> Seq<u8> {
        self.0@
    }
}

impl<const N: usize> Default for BitSet<N> {
    fn default() -> (r: Self)
        ensures
            r@ == Seq::new(N as nat, |i: int| 0u8),
    {
        Self::empty()
    }
}

impl<const N: usize> BitSet<N> {
    /// The set with every bit clear.
    pub fn empty() -> (r: Self)
        ensures
            r@ == Seq::new(N as nat, |i: int| 0u8),
    {
        let r = Self([0;N]);
        r
    }

    /// Sets the field of `bit_width` bits at `offset` from the low bits of
    /// `value`; every other bit stays.
    pub fn set_bits(&mut self, offset: usize, bit_width: usize, value: u8)
        requires
            0 < bit_width < 8,
            field_fits(N as int, offset as int, bit_width as int),
        ensures
            final(self)@ == spec_write_bits(old(self)@, offset as int, bit_width as int, value),
    {
        let byte_from: usize = offset / 8;
        let byte_bit_offset: usize = offset - byte_from * 8;
        if byte_bit_offset + bit_width <= 8 {
            let b: u8 = do_encode(&self.0, byte_from, byte_bit_offset, bit_width, value);
            self.0[byte_from] = b;
        } else {
            let value_bits_first: usize = 8 - byte_bit_offset;
            let value_bits_second: usize = bit_width - value_bits_first;
            let high: u8 = value >> value_bits_second;
            proof {
                lemma_shift_is_division(value, value_bits_second as u8);
            }
            let b: u8 = do_encode(&self.0, byte_from, byte_bit_offset, value_bits_first, high);
            self.0[byte_from] = b;
            let c: u8 = do_encode(&self.0, byte_from + 1, 0, value_bits_second, value);
            self.0[byte_from + 1] = c;
        }
    }

    /// The field of `count` bits at `offset`.
    pub fn get_bits(&self, offset: usize, count: usize) -> (r: u8)
        requires
            0 < count < 8,
            offset / 8 < N,
        ensures
            r as int == spec_read_bits(self@, offset as int, count as int),
    {
        let byte_from: usize = offset / 8;
        let byte_bit_offset: usize = offset - byte_from * 8;
        if byte_bit_offset + count <= 8 {
            do_decode(&self.0, byte_from, byte_bit_offset, count)
        } else {
            let value_bits_first: usize = 8 - byte_bit_offset;
            let value_bits_second: usize = count - value_bits_first;
            let high: u8 = do_decode(&self.0, byte_from, byte_bit_offset, value_bits_first);
            let lsb: u8 = if byte_from + 1 < N {
                do_decode(&self.0, byte_from + 1, 0, value_bits_second)
            } else {
                0
            };
            proof {
                lemma_join(
                    high,
                    lsb,
                    kept_bits(value_bits_first as int) as u8,
                    value_bits_second as u8,
                );
            }
            let msb: u8 = high << value_bits_second;
            msb | lsb
        }
    }
}

/// Shifting a byte down is dividing it by a power of two.
proof fn lemma_shift_is_division(value: u8, shift: u8)
    requires
        shift < 8,
    ensures
        (value >> shift) as int == value as int / pow2(shift as int),
{
    lemma_pow2_shift(shift);
    let v: u16 = value as u16;
    let s: u16 = shift as u16;
    assert((value >> shift) as u16 == v / (1u16 << s)) by (bit_vector)
        requires
            v == value as u16,
            s == shift as u16,
            shift < 8,
    ;
}

/// Two fields that do not overlap are joined by shifting the one above the
/// other.
proof fn lemma_join(high: u8, low: u8, first: u8, second: u8)
    requires
        first + second <= 7,
        (high as int) < pow2(first as int),
        (low as int) < pow2(second as int),
    ensures
        ((high << second) | low) as int == high as int * pow2(second as int) + low as int,
{
    lemma_pow2_shift(first);
    lemma_pow2_shift(second);
    let h: u16 = high as u16;
    let l: u16 = low as u16;
    let f: u16 = first as u16;
    let s: u16 = second as u16;
    assert(h * (1u16 << s) + l < 256 && ((high << second) | low) as u16 == h * (1u16 << s) + l)
        by (bit_vector)
        requires
            h == high as u16,
            l == low as u16,
            f == first as u16,
            s == second as u16,
            f + s <= 7,
            h < (1u16 << f),
            l < (1u16 << s),
    ;
}

/// A field starts inside `m` bits exactly if its number is below the
/// number of fields that start there.
proof fn lemma_room(k: int, w: int, m: int)
    requires
        0 <= k,
        0 < w,
        0 <= m,
    ensures
        k * w < m <==> k < (m + w - 1) / w,
{
    let room = (m + w - 1) / w;
    let rest = (m + w - 1) % w;
    vstd::arithmetic::div_mod::lemma_fundamental_div_mod(m + w - 1, w);
    vstd::arithmetic::div_mod::lemma_mod_bound(m + w - 1, w);
    if k < room {
        assert(k * w <= (room - 1) * w) by (nonlinear_arith)
            requires
                k <= room - 1,
                0 < w,
        ;
        assert((room - 1) * w == w * room - w) by (nonlinear_arith);
    } else {
        assert(k * w >= room * w) by (nonlinear_arith)
            requires
                k >= room,
                0 < w,
        ;
    }
}

/// Whether each of the first `total` fields of `bit_width` bits has a
/// byte to be read from a buffer of `buffer_len` bytes and lies within
/// `len` bytes.
pub open spec fn fields_fit(buffer_len: int, bit_width: int, len: int, total: int) -> bool {
    forall|k: int|
        0 <= k < total ==> k < buffer_len && #[trigger] field_fits(len, k * bit_width, bit_width)
}

impl<const N: usize> BitSet<N> {
    /// The set that holds the first bytes of `buffer` as fields of
    /// `bit_width` bits each, one behind the other: one field for each byte
    /// up to `max_bytes`, as long as a field starts inside the set.
    pub fn from_buffer(buffer: &[u8], max_bytes: usize, bit_width: usize) -> (r: Self)
        requires
            0 < bit_width < 8,
            N * 8 + 8 <= usize::MAX,
            fields_fit(
                buffer@.len() as int,
                bit_width as int,
                N as int,
                fields_written(max_bytes as int, bit_width as int, N as int),
            ),
        ensures
            r@ == filled(
                buffer@,
                bit_width as int,
                N as int,
                fields_written(max_bytes as int, bit_width as int, N as int),
            ),
    {
        let mut result = Self::empty();
        let mut offset: usize = 0;
        let mut byte: usize = 0;
        let ghost total = fields_written(max_bytes as int, bit_width as int, N as int);
        proof {
            lemma_room(0, bit_width as int, N * 8);
        }
        while offset < N * 8 && byte < max_bytes
            invariant
                0 < bit_width < 8,
                N * 8 + 8 <= usize::MAX,
                offset == byte * bit_width,
                offset < N * 8 + 8,
                byte <= total,
                total == fields_written(max_bytes as int, bit_width as int, N as int),
                offset < N * 8 && byte < max_bytes ==> byte < total,
                !(offset < N * 8 && byte < max_bytes) ==> byte == total,
                result@ == filled(buffer@, bit_width as int, N as int, byte as int),
                fields_fit(buffer@.len() as int, bit_width as int, N as int, total),
            decreases N * 8 + 8 - offset,
        {
            assert(field_fits(N as int, byte * bit_width, bit_width as int));
            let value: u8 = buffer[byte];
            result.set_bits(offset, bit_width, value);
            proof {
                assert((byte + 1) * bit_width == byte * bit_width + bit_width) by (nonlinear_arith);
                lemma_room(byte + 1, bit_width as int, N * 8);
                lemma_room(byte as int, bit_width as int, N * 8);
            }
            offset += bit_width;
            byte += 1;
        }
        result
    }
}

/// A field that was written reads back as the low bits of the value. This
/// holds of every field of up to six bits, and of a field of seven bits
/// that crosses into the next byte; a field of seven bits within one byte
/// keeps five.
pub proof fn lemma_read_after_write(bytes: Seq<u8>, offset: int, bit_width: int, value: u8)
    requires
        0 < bit_width < 8,
        field_fits(bytes.len() as int, offset, bit_width),
        bit_width == 7 ==> offset % 8 + bit_width > 8,
    ensures
        spec_write_bits(bytes, offset, bit_width, value).len() == bytes.len(),
        spec_read_bits(spec_write_bits(bytes, offset, bit_width, value), offset, bit_width)
            == value as int % pow2(bit_width),
{
    let byte_from = offset / 8;
    let bit_from = offset % 8;
    if bit_from + bit_width <= 8 {
        lemma_field_of_with_field(bytes[byte_from], bit_from, bit_width, value);
    } else {
        let first = 8 - bit_from;
        let second = bit_width - first;
        let high = (value as int / pow2(second)) as u8;
        lemma_field_of_with_field(bytes[byte_from], bit_from, first, high);
        lemma_field_of_with_field(bytes[byte_from + 1], 0, second, value);
        lemma_split(value, first, second);
    }
}

/// The field that was set reads back as the kept bits of the value, and
/// the byte with the field set is a byte.
proof fn lemma_field_of_with_field(byte: u8, offset: int, count: int, value: u8)
    requires
        0 <= offset,
        1 <= count,
        offset + count <= 8,
    ensures
        0 <= with_field(byte, offset, count, value) <= 255,
        field(with_field(byte, offset, count, value) as u8, offset, count) == value as int % pow2(
            kept_bits(count),
        ),
{
    let shift = (8 - offset - count) as u8;
    let kept = kept_bits(count) as u8;
    lemma_pow2_shift(shift);
    lemma_pow2_shift(kept);
    let b: u16 = byte as u16;
    let v: u16 = value as u16;
    let s: u16 = shift as u16;
    let k: u16 = kept as u16;
    let old_field: u16 = (b / (1u16 << s)) % (1u16 << k);
    let new_field: u16 = v % (1u16 << k);
    assert({
        &&& old_field * (1u16 << s) <= b
        &&& new_field * (1u16 << s) <= 255
        &&& b - old_field * (1u16 << s) + new_field * (1u16 << s) <= 255
        &&& (((b - old_field * (1u16 << s) + new_field * (1u16 << s)) as u16) / (1u16 << s)) % (1u16
            << k) == new_field
    }) by (bit_vector)
        requires
            b < 256,
            v < 256,
            s + k <= 8,
            old_field == (b / (1u16 << s)) % (1u16 << k),
            new_field == v % (1u16 << k),
    ;
}

/// The high bits of a value above its low bits are the value.
proof fn lemma_split(value: u8, first: int, second: int)
    requires
        1 <= first,
        1 <= second,
        first + second <= 7,
    ensures
        ((value as int / pow2(second)) % pow2(first)) * pow2(second) + value as int % pow2(second)
            == value as int % pow2(first + second),
        (value as int / pow2(second)) as u8 as int == value as int / pow2(second),
{
    lemma_pow2_shift(first as u8);
    lemma_pow2_shift(second as u8);
    lemma_pow2_shift((first + second) as u8);
    let v: u16 = value as u16;
    let f: u16 = first as u16;
    let s: u16 = second as u16;
    assert(((v / (1u16 << s)) % (1u16 << f)) * (1u16 << s) + v % (1u16 << s) == v % (1u16 << ((f
        + s) as u16)) && ((v / (1u16 << s)) % (1u16 << f)) * (1u16 << s) <= 255 && v / (1u16 << s)
        <= 255) by (bit_vector)
        requires
            v < 256,
            1 <= f,
            1 <= s,
            f + s <= 7,
    ;
}

} // verus!
