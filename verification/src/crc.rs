//! The CRC-32 that guards each block on the wire and each file on disk.

use vstd::prelude::*;

#[allow(unused_imports)]
use crate::little_endian::u32_le;

verus! {

/// The generator polynomial of CRC-32, least significant bit first.
pub const POLYNOMIAL: u32 = 0xedb8_8320;

/// The register before the first byte.
pub const INITIAL: u32 = 0xffff_ffff;

/// The remainders of all four-bit values, for two lookups per byte.
pub const CRC_TABLE: [u32; 16] = [
    0x0000_0000,
    0x1db7_1064,
    0x3b6e_20c8,
    0x26d9_30ac,
    0x76dc_4190,
    0x6b6b_51f4,
    0x4db2_6158,
    0x5005_713c,
    0xedb8_8320,
    0xf00f_9344,
    0xd6d6_a3e8,
    0xcb61_b38c,
    0x9b64_c2b0,
    0x86d3_d2d4,
    0xa00a_e278,
    0xbdbd_f21c,
];

/// One step of the shift register: divide by the polynomial, bit by bit.
pub open spec fn shift_bit(crc: u32) -> u32 {
    if crc & 1 == 1 {
        (crc >> 1) ^ POLYNOMIAL
    } else {
        crc >> 1
    }
}

/// Four steps of the shift register.
pub open spec fn shift_nibble(crc: u32) -> u32 {
    shift_bit(shift_bit(shift_bit(shift_bit(crc))))
}

/// The register after one byte: mix the byte in, then shift eight times.
pub open spec fn after_byte(crc: u32, byte: u8) -> u32 {
    shift_nibble(shift_nibble(crc ^ (byte as u32)))
}

/// The register after all bytes of `data`, starting from `crc`.
pub open spec fn after_bytes(crc: u32, data: Seq<u8>) -> u32
    decreases data.len(),
{
    if data.len() == 0 {
        crc
    } else {
        after_byte(after_bytes(crc, data.drop_last()), data.last())
    }
}

/// The CRC-32 of `data`.
pub open spec fn crc32_of(data: Seq<u8>) -> u32 {
    !after_bytes(INITIAL, data)
}

/// The table entries as a function that the bit-vector solver can unfold.
spec fn entry(i: u32) -> u32 {
    if i == 0 { 0x0000_0000 }
    else if i == 1 { 0x1db7_1064 }
    else if i == 2 { 0x3b6e_20c8 }
    else if i == 3 { 0x26d9_30ac }
    else if i == 4 { 0x76dc_4190 }
    else if i == 5 { 0x6b6b_51f4 }
    else if i == 6 { 0x4db2_6158 }
    else if i == 7 { 0x5005_713c }
    else if i == 8 { 0xedb8_8320 }
    else if i == 9 { 0xf00f_9344 }
    else if i == 10 { 0xd6d6_a3e8 }
    else if i == 11 { 0xcb61_b38c }
    else if i == 12 { 0x9b64_c2b0 }
    else if i == 13 { 0x86d3_d2d4 }
    else if i == 14 { 0xa00a_e278 }
    else { 0xbdbd_f21c }
}

proof fn lemma_table(i: u32)
    requires
        i < 16,
    ensures
        CRC_TABLE@[i as int] == shift_nibble(i),
{
    assert(entry(i) == shift_nibble(i)) by (bit_vector)
        requires
            i < 16,
    ;
    assert(CRC_TABLE@[i as int] == entry(i));
}

/// Two lookups advance the register by one byte.
proof fn lemma_two_lookups(crc: u32, data: u8, half: u32)
    requires
        half == shift_nibble((crc ^ (data as u32)) & 0x0f) ^ (crc >> 4),
    ensures
        after_byte(crc, data) == shift_nibble((half ^ ((data as u32) >> 4)) & 0x0f) ^ (half >> 4),
{
    assert(after_byte(crc, data) == shift_nibble((half ^ ((data as u32) >> 4)) & 0x0f) ^ (half
        >> 4)) by (bit_vector)
        requires
            half == shift_nibble((crc ^ (data as u32)) & 0x0f) ^ (crc >> 4),
    ;
}

/// Advances the register by one byte.
pub fn crc_update(crc: u32, data: u8) -> (result: u32)
    ensures
        result == after_byte(crc, data),
{
    let low: u32 = (crc ^ data as u32) & 0x0f;
    assert((crc ^ data as u32) & 0x0f < 16) by (bit_vector);
    let half: u32 = CRC_TABLE[low as usize] ^ (crc >> 4);
    let high: u32 = (half ^ ((data as u32) >> 4)) & 0x0f;
    assert((half ^ ((data as u32) >> 4)) & 0x0f < 16) by (bit_vector);
    proof {
        lemma_table(low);
        lemma_table(high);
        lemma_two_lookups(crc, data, half);
    }
    CRC_TABLE[high as usize] ^ (half >> 4)
}

/// The CRC-32 of a run of bytes.
pub fn crc32(data: &[u8]) -> (result: u32)
    ensures
        result == crc32_of(data@),
{
    let mut crc: u32 = INITIAL;
    let mut i: usize = 0;
    while i < data.len()
        invariant
            i <= data@.len(),
            crc == after_bytes(INITIAL, data@.take(i as int)),
        decreases data@.len() - i,
    {
        assert(data@.take(i + 1).drop_last() == data@.take(i as int));
        crc = crc_update(crc, data[i]);
        i += 1;
    }
    assert(data@.take(i as int) == data@);
    !crc
}

/// Feeding two runs one after the other is feeding their concatenation.
pub proof fn law_crc_concatenation(crc: u32, first: Seq<u8>, second: Seq<u8>)
    ensures
        after_bytes(crc, first + second) == after_bytes(after_bytes(crc, first), second),
    decreases second.len(),
{
    if second.len() == 0 {
        assert(first + second == first);
    } else {
        assert((first + second).drop_last() == first + second.drop_last());
        law_crc_concatenation(crc, first, second.drop_last());
    }
}

/// Registers that differ stay different whatever is fed to both.
proof fn lemma_registers_stay_apart(a: u32, b: u32, data: Seq<u8>)
    requires
        a != b,
    ensures
        after_bytes(a, data) != after_bytes(b, data),
    decreases data.len(),
{
    if data.len() > 0 {
        lemma_registers_stay_apart(a, b, data.drop_last());
        let x = after_bytes(a, data.drop_last());
        let y = after_bytes(b, data.drop_last());
        let byte = data.last();
        lemma_shift_nibble_injective(x ^ (byte as u32), y ^ (byte as u32));
        lemma_shift_nibble_injective(
            shift_nibble(x ^ (byte as u32)),
            shift_nibble(y ^ (byte as u32)),
        );
        assert(x != y ==> x ^ (byte as u32) != y ^ (byte as u32)) by (bit_vector);
    }
}

proof fn lemma_shift_nibble_injective(a: u32, b: u32)
    ensures
        shift_nibble(a) == shift_nibble(b) ==> a == b,
{
    assert(shift_nibble(a) == shift_nibble(b) ==> a == b) by (bit_vector);
}

/// Eight steps of the shift register.
spec fn shift_byte(crc: u32) -> u32 {
    shift_nibble(shift_nibble(crc))
}

proof fn lemma_shift_byte_injective(a: u32, b: u32)
    ensures
        shift_byte(a) == shift_byte(b) ==> a == b,
{
    lemma_shift_nibble_injective(a, b);
    lemma_shift_nibble_injective(shift_nibble(a), shift_nibble(b));
}

/// What is mixed in after the register has shifted by a byte could as well be
/// mixed in before, one byte higher.
proof fn lemma_mix_before_shift(crc: u32, mixed: u32)
    requires
        mixed < 0x100_0000,
    ensures
        shift_byte(crc) ^ mixed == shift_byte(crc ^ (mixed << 8)),
{
    let half = shift_nibble(crc);
    let higher = mixed << 4;
    assert(shift_nibble(half) ^ mixed == shift_nibble(half ^ (mixed << 4))) by (bit_vector)
        requires
            mixed < 0x100_0000,
    ;
    assert(shift_nibble(crc) ^ higher == shift_nibble(crc ^ (higher << 4))) by (bit_vector)
        requires
            higher == mixed << 4,
            mixed < 0x100_0000,
    ;
    assert((mixed << 4) << 4 == mixed << 8) by (bit_vector);
}

/// Four bytes as one word, least significant first.
spec fn word(b0: u8, b1: u8, b2: u8, b3: u8) -> u32 {
    (b0 as u32) ^ ((b1 as u32) << 8) ^ ((b2 as u32) << 16) ^ ((b3 as u32) << 24)
}

/// Four bytes act on the register as their word, mixed in at once.
proof fn lemma_four_bytes(crc: u32, bytes: Seq<u8>)
    requires
        bytes.len() == 4,
    ensures
        after_bytes(crc, bytes) == shift_byte(
            shift_byte(
                shift_byte(shift_byte(crc ^ word(bytes[0], bytes[1], bytes[2], bytes[3]))),
            ),
        ),
{
    let (b0, b1, b2, b3) = (bytes[0], bytes[1], bytes[2], bytes[3]);
    assert(after_bytes(crc, bytes) == after_byte(
        after_byte(after_byte(after_byte(crc, b0), b1), b2),
        b3,
    )) by {
        assert(bytes.drop_last().drop_last().drop_last().drop_last().len() == 0);
        reveal_with_fuel(after_bytes, 5);
    }
    let (w1, w2, w3) = (b1 as u32, b2 as u32, b3 as u32);
    let one = crc ^ (b0 as u32);
    let two = one ^ (w1 << 8);
    let three = two ^ (w2 << 16);
    let four = three ^ (w3 << 24);
    assert(w2 << 8 < 0x100_0000 && (w2 << 8) << 8 == w2 << 16) by (bit_vector)
        requires
            w2 < 0x100,
    ;
    assert(w3 << 8 < 0x100_0000 && (w3 << 8) << 8 == w3 << 16 && w3 << 16 < 0x100_0000 && (w3
        << 16) << 8 == w3 << 24) by (bit_vector)
        requires
            w3 < 0x100,
    ;
    lemma_mix_before_shift(one, w1);
    lemma_mix_before_shift(shift_byte(two), w2);
    lemma_mix_before_shift(two, w2 << 8);
    lemma_mix_before_shift(shift_byte(shift_byte(three)), w3);
    lemma_mix_before_shift(shift_byte(three), w3 << 8);
    lemma_mix_before_shift(three, w3 << 16);
    assert(four == crc ^ word(b0, b1, b2, b3)) by (bit_vector)
        requires
            w1 == b1 as u32,
            w2 == b2 as u32,
            w3 == b3 as u32,
            one == crc ^ (b0 as u32),
            two == one ^ (w1 << 8),
            three == two ^ (w2 << 16),
            four == three ^ (w3 << 24),
    ;
}

/// From one register, four bytes lead to a register that no other four lead to.
proof fn lemma_four_bytes_tell_apart(crc: u32, a: Seq<u8>, b: Seq<u8>)
    requires
        a.len() == 4,
        b.len() == 4,
        after_bytes(crc, a) == after_bytes(crc, b),
    ensures
        a == b,
{
    lemma_four_bytes(crc, a);
    lemma_four_bytes(crc, b);
    let x = crc ^ word(a[0], a[1], a[2], a[3]);
    let y = crc ^ word(b[0], b[1], b[2], b[3]);
    lemma_shift_byte_injective(x, y);
    lemma_shift_byte_injective(shift_byte(x), shift_byte(y));
    lemma_shift_byte_injective(shift_byte(shift_byte(x)), shift_byte(shift_byte(y)));
    lemma_shift_byte_injective(
        shift_byte(shift_byte(shift_byte(x))),
        shift_byte(shift_byte(shift_byte(y))),
    );
    let (a0, a1, a2, a3) = (a[0], a[1], a[2], a[3]);
    let (b0, b1, b2, b3) = (b[0], b[1], b[2], b[3]);
    assert(a0 == b0 && a1 == b1 && a2 == b2 && a3 == b3) by (bit_vector)
        requires
            crc ^ word(a0, a1, a2, a3) == crc ^ word(b0, b1, b2, b3),
    ;
    assert(a == b);
}

/// From one register, up to four bytes lead to a register that no others of the
/// same length lead to.
proof fn lemma_short_runs_tell_apart(crc: u32, a: Seq<u8>, b: Seq<u8>)
    requires
        a.len() == b.len() <= 4,
        after_bytes(crc, a) == after_bytes(crc, b),
    ensures
        a == b,
{
    let filler = Seq::new((4 - a.len()) as nat, |i: int| 0u8);
    law_crc_concatenation(crc, a, filler);
    law_crc_concatenation(crc, b, filler);
    lemma_four_bytes_tell_apart(crc, a + filler, b + filler);
    assert(a == (a + filler).take(a.len() as int));
    assert(b == (b + filler).take(a.len() as int));
}

/// Two runs of bytes of one length agree everywhere but, perhaps, in the four
/// bytes from `place` on.
pub open spec fn differ_only_from(a: Seq<u8>, b: Seq<u8>, place: int) -> bool {
    &&& a.len() == b.len()
    &&& forall|i: int| 0 <= i < a.len() && !(place <= i < place + 4) ==> a[i] == b[i]
}

/// Damage within four bytes in a row always shows: two runs of one length that
/// differ, and differ nowhere else, have different CRCs.
pub proof fn law_damaged_burst_shows(a: Seq<u8>, b: Seq<u8>, place: int)
    requires
        a != b,
        differ_only_from(a, b, place),
    ensures
        crc32_of(a) != crc32_of(b),
{
    let length = a.len() as int;
    let from = if place < 0 { 0 } else if place > length { length } else { place };
    let to = if place + 4 < 0 { 0 } else if place + 4 > length { length } else { place + 4 };
    let head = a.take(from);
    let tail = a.skip(to);
    let (p, q) = (a.subrange(from, to), b.subrange(from, to));
    assert(a == head + p + tail);
    assert(b == head + q + tail);
    law_crc_concatenation(INITIAL, head + p, tail);
    law_crc_concatenation(INITIAL, head + q, tail);
    law_crc_concatenation(INITIAL, head, p);
    law_crc_concatenation(INITIAL, head, q);
    let register = after_bytes(INITIAL, head);
    if after_bytes(register, p) == after_bytes(register, q) {
        lemma_short_runs_tell_apart(register, p, q);
    }
    lemma_registers_stay_apart(after_bytes(register, p), after_bytes(register, q), tail);
    let x = after_bytes(INITIAL, a);
    let y = after_bytes(INITIAL, b);
    assert(x != y ==> !x != !y) by (bit_vector);
}

/// A single damaged byte always shows: two runs of one length that differ in
/// exactly one place have different CRCs.
pub proof fn law_one_damaged_byte_shows(data: Seq<u8>, place: int, byte: u8)
    requires
        0 <= place < data.len(),
        byte != data[place],
    ensures
        crc32_of(data.update(place, byte)) != crc32_of(data),
{
    assert(data.update(place, byte)[place] == byte);
    law_damaged_burst_shows(data.update(place, byte), data, place);
}

/// The CRC of any data that is followed by its own CRC.
pub const RESIDUE: u32 = 0x2144_df1c;

/// Data that is followed by its CRC, least significant byte first, has one and
/// the same CRC, whatever the data.
pub proof fn law_residue(data: Seq<u8>)
    ensures
        crc32_of(data + u32_le(crc32_of(data))) == RESIDUE,
{
    let register = after_bytes(INITIAL, data);
    let crc = crc32_of(data);
    let bytes = u32_le(crc);
    let (b0, b1, b2, b3) = (bytes[0], bytes[1], bytes[2], bytes[3]);
    law_crc_concatenation(INITIAL, data, bytes);
    lemma_four_bytes(register, bytes);
    let mixed = register ^ word(b0, b1, b2, b3);
    let (w0, w1, w2, w3) = (b0 as u32, b1 as u32, b2 as u32, b3 as u32);
    assert(crc % 0x100u32 == crc & 0xff && crc / 0x100u32 % 0x100u32 == (crc >> 8) & 0xff && crc
        / 0x1_0000u32 % 0x100u32 == (crc >> 16) & 0xff && crc / 0x100_0000u32 == crc >> 24)
        by (bit_vector);
    assert(mixed == 0xffff_ffffu32) by (bit_vector)
        requires
            mixed == register ^ (w0 ^ (w1 << 8) ^ (w2 << 16) ^ (w3 << 24)),
            crc == !register,
            w0 == crc & 0xff,
            w1 == (crc >> 8) & 0xff,
            w2 == (crc >> 16) & 0xff,
            w3 == crc >> 24,
    ;
    let one = shift_byte(mixed);
    let two = shift_byte(one);
    let three = shift_byte(two);
    let four = shift_byte(three);
    assert(one == 0x2dfd_1072u32) by (bit_vector)
        requires
            one == shift_byte(mixed),
            mixed == 0xffff_ffffu32,
    ;
    assert(two == 0xbe26_ed00u32) by (bit_vector)
        requires
            two == shift_byte(one),
            one == 0x2dfd_1072u32,
    ;
    assert(three == 0x00be_26edu32) by (bit_vector)
        requires
            three == shift_byte(two),
            two == 0xbe26_ed00u32,
    ;
    assert(four == 0xdebb_20e3u32) by (bit_vector)
        requires
            four == shift_byte(three),
            three == 0x00be_26edu32,
    ;
    assert(!0xdebb_20e3u32 == 0x2144_df1cu32) by (bit_vector);
}

/// Two runs of bytes of one length, mixed bit by bit.
pub open spec fn mixed(a: Seq<u8>, b: Seq<u8>) -> Seq<u8> {
    Seq::new(a.len(), |i: int| a[i] ^ b[i])
}

proof fn lemma_mixed_registers(p: u32, q: u32, a: Seq<u8>, b: Seq<u8>)
    requires
        a.len() == b.len(),
    ensures
        after_bytes(p ^ q, mixed(a, b)) == after_bytes(p, a) ^ after_bytes(q, b),
    decreases a.len(),
{
    if a.len() > 0 {
        lemma_mixed_registers(p, q, a.drop_last(), b.drop_last());
        assert(mixed(a, b).drop_last() =~= mixed(a.drop_last(), b.drop_last()));
        let x = after_bytes(p, a.drop_last());
        let y = after_bytes(q, b.drop_last());
        let (s, t) = (a.last(), b.last());
        assert((x ^ y) ^ ((s ^ t) as u32) == (x ^ (s as u32)) ^ (y ^ (t as u32))) by (bit_vector);
        lemma_mixed_shift(x ^ (s as u32), y ^ (t as u32));
        lemma_mixed_shift(shift_nibble(x ^ (s as u32)), shift_nibble(y ^ (t as u32)));
    }
}

proof fn lemma_mixed_shift(a: u32, b: u32)
    ensures
        shift_nibble(a ^ b) == shift_nibble(a) ^ shift_nibble(b),
{
    assert(shift_nibble(a ^ b) == shift_nibble(a) ^ shift_nibble(b)) by (bit_vector);
}

/// CRCs mix as the data does: of any three runs of one length, mixed bit by bit,
/// the CRC is that of the three, mixed.
pub proof fn law_crcs_mix(a: Seq<u8>, b: Seq<u8>, c: Seq<u8>)
    requires
        a.len() == b.len() == c.len(),
    ensures
        crc32_of(mixed(mixed(a, b), c)) == crc32_of(a) ^ crc32_of(b) ^ crc32_of(c),
{
    lemma_mixed_registers(INITIAL, INITIAL, a, b);
    lemma_mixed_registers(INITIAL ^ INITIAL, INITIAL, mixed(a, b), c);
    let (x, y, z) = (
        after_bytes(INITIAL, a),
        after_bytes(INITIAL, b),
        after_bytes(INITIAL, c),
    );
    assert((INITIAL ^ INITIAL) ^ INITIAL == INITIAL) by (bit_vector);
    assert(!((x ^ y) ^ z) == (!x) ^ (!y) ^ (!z)) by (bit_vector);
}

/// Each bit halves the register; where a one falls out, the generator polynomial
/// is mixed in. A byte is mixed in first and then takes eight such steps.
pub proof fn law_bits_of_a_byte(crc: u32, byte: u8, data: Seq<u8>)
    ensures
        crc % 2 == 0 ==> shift_bit(crc) == crc / 2,
        crc % 2 == 1 ==> shift_bit(crc) == ((crc / 2) as u32) ^ 0xedb8_8320u32,
        after_bytes(crc, data.push(byte)) == after_byte(after_bytes(crc, data), byte),
        after_bytes(crc, Seq::empty()) == crc,
        after_byte(crc, byte) == shift_bit(
            shift_bit(
                shift_bit(
                    shift_bit(
                        shift_bit(shift_bit(shift_bit(shift_bit(crc ^ (byte as u32))))),
                    ),
                ),
            ),
        ),
{
    assert(data.push(byte).drop_last() =~= data);
    assert(crc & 1 == crc % 2 && crc >> 1 == crc / 2) by (bit_vector);
}

/// The CRC of nothing is zero, and that of more data follows from that of the
/// data before it and from what comes.
pub proof fn law_crc_goes_on(first: Seq<u8>, second: Seq<u8>)
    ensures
        crc32_of(Seq::empty()) == 0,
        crc32_of(first + second) == !after_bytes(!crc32_of(first), second),
{
    law_crc_concatenation(INITIAL, first, second);
    let register = after_bytes(INITIAL, first);
    assert(!(!register) == register) by (bit_vector);
    assert(!0xffff_ffffu32 == 0) by (bit_vector);
}

} // verus!
