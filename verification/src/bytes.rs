//! Fixed-width integers as byte sequences.

use vstd::arithmetic::power::*;
use vstd::prelude::*;

verus! {

/// The number that a big-endian byte sequence writes.
pub open spec fn be_value(bytes: Seq<u8>) -> nat
    decreases bytes.len(),
{
    if bytes.len() == 0 {
        0
    } else {
        be_value(bytes.drop_last()) * 256 + bytes.last() as nat
    }
}

/// The `width` low bytes of `value`, most significant first.
pub open spec fn be_bytes(value: nat, width: nat) -> Seq<u8>
    decreases width,
{
    if width == 0 {
        Seq::empty()
    } else {
        be_bytes(value / 256, (width - 1) as nat).push((value % 256) as u8)
    }
}

/// The 32-bit word whose bytes, least significant first, are the four bytes at `at`.
pub open spec fn le_word(bytes: Seq<u8>, at: int) -> u32 {
    (bytes[at] + bytes[at + 1] * 0x100 + bytes[at + 2] * 0x1_0000 + bytes[at + 3]
        * 0x100_0000) as u32
}

/// Byte `index` of a word, counted from the least significant.
pub open spec fn le_byte(word: u32, index: int) -> u8 {
    if index == 0 {
        (word % 0x100) as u8
    } else if index == 1 {
        ((word / 0x100) % 0x100) as u8
    } else if index == 2 {
        ((word / 0x1_0000) % 0x100) as u8
    } else {
        (word / 0x100_0000) as u8
    }
}

/// Writing a number down and reading it back gives the number, as long as it fits.
pub proof fn law_be_bytes_read_back(value: nat, width: nat)
    requires
        value < pow(256, width),
    ensures
        be_bytes(value, width).len() == width,
        be_value(be_bytes(value, width)) == value,
    decreases width,
{
    reveal(pow);
    if width > 0 {
        let below = (width - 1) as nat;
        assert(pow(256, width) == 256 * pow(256, below));
        assert(value / 256 < pow(256, below)) by (nonlinear_arith)
            requires
                (value as int) < 256 * pow(256, below),
        ;
        law_be_bytes_read_back(value / 256, below);
        let whole = be_bytes(value, width);
        assert(whole.drop_last() =~= be_bytes(value / 256, below));
    }
}

/// Reading a byte sequence as a number and writing the number down gives the sequence.
pub proof fn law_be_value_write_back(bytes: Seq<u8>)
    ensures
        be_value(bytes) < pow(256, bytes.len()),
        be_bytes(be_value(bytes), bytes.len()) == bytes,
    decreases bytes.len(),
{
    reveal(pow);
    if bytes.len() > 0 {
        let front = bytes.drop_last();
        law_be_value_write_back(front);
        assert(pow(256, bytes.len()) == 256 * pow(256, front.len()));
        let high = be_value(front);
        let value = be_value(bytes);
        assert(value / 256 == high && value % 256 == bytes.last());
        assert(be_bytes(value, bytes.len()) =~= bytes);
    } else {
        assert(be_bytes(0, 0) =~= bytes);
    }
}

/// The width of `be_bytes` is the width asked for.
pub proof fn lemma_be_bytes_len(value: nat, width: nat)
    ensures
        be_bytes(value, width).len() == width,
    decreases width,
{
    if width > 0 {
        lemma_be_bytes_len(value / 256, (width - 1) as nat);
    }
}

/// Every 128-bit number is below 256 to the 16th.
pub proof fn lemma_u128_width()
    ensures
        pow(256, 16) == 0x1_0000_0000_0000_0000_0000_0000_0000_0000,
{
    reveal_with_fuel(pow, 17);
}

/// `u128` from its sixteen bytes, most significant first.
pub fn u128_from_be(bytes: &[u8; 16]) -> (value: u128)
    ensures
        value as nat == be_value(bytes@),
{
    let mut value: u128 = 0;
    let mut index: usize = 0;
    proof {
        assert(bytes@.take(0).len() == 0);
    }
    while index < 16
        invariant
            index <= 16,
            value as nat == be_value(bytes@.take(index as int)),
        decreases 16 - index,
    {
        proof {
            let upto = bytes@.take(index as int + 1);
            assert(upto.drop_last() =~= bytes@.take(index as int));
            law_be_value_write_back(upto);
            lemma_u128_width();
            if upto.len() < 16 {
                lemma_pow_increases(256, upto.len(), 16);
            }
        }
        value = value * 256 + bytes[index] as u128;
        index = index + 1;
    }
    proof {
        assert(bytes@.take(16) =~= bytes@);
    }
    value
}

/// The sixteen bytes of a `u128`, most significant first.
pub fn u128_to_be(value: u128) -> (bytes: [u8; 16])
    ensures
        bytes@ == be_bytes(value as nat, 16),
{
    let mut bytes: [u8; 16] = [0; 16];
    let mut rest: u128 = value;
    let mut left: usize = 16;
    proof {
        lemma_be_bytes_len(value as nat, 16);
    }
    while left > 0
        invariant
            left <= 16,
            be_bytes(value as nat, 16) == be_bytes(rest as nat, left as nat) + bytes@.skip(
                left as int,
            ),
        decreases left,
    {
        let ghost before = bytes@.skip(left as int);
        let ghost rest_before = rest as nat;
        let ghost left_before = left as nat;
        left = left - 1;
        bytes[left] = (rest % 256) as u8;
        rest = rest / 256;
        proof {
            lemma_be_bytes_len(rest as nat, left as nat);
            assert(bytes@.skip(left as int) =~= seq![(rest_before % 256) as u8] + before);
            assert(be_bytes(rest_before, left_before) =~= be_bytes(rest as nat, left as nat).push(
                (rest_before % 256) as u8,
            ));
            assert(be_bytes(rest as nat, left as nat).push((rest_before % 256) as u8) + before
                =~= be_bytes(rest as nat, left as nat) + bytes@.skip(left as int));
        }
    }
    proof {
        assert(bytes@.skip(0) =~= bytes@);
        assert(be_bytes(rest as nat, 0) + bytes@ =~= bytes@);
    }
    bytes
}

/// The eight bytes of a `u64`, most significant first.
pub fn u64_to_be(value: u64) -> (bytes: [u8; 8])
    ensures
        bytes@ == be_bytes(value as nat, 8),
{
    let mut bytes: [u8; 8] = [0; 8];
    let mut rest: u64 = value;
    let mut left: usize = 8;
    proof {
        lemma_be_bytes_len(value as nat, 8);
    }
    while left > 0
        invariant
            left <= 8,
            be_bytes(value as nat, 8) == be_bytes(rest as nat, left as nat) + bytes@.skip(
                left as int,
            ),
        decreases left,
    {
        let ghost before = bytes@.skip(left as int);
        let ghost rest_before = rest as nat;
        let ghost left_before = left as nat;
        left = left - 1;
        bytes[left] = (rest % 256) as u8;
        rest = rest / 256;
        proof {
            lemma_be_bytes_len(rest as nat, left as nat);
            assert(bytes@.skip(left as int) =~= seq![(rest_before % 256) as u8] + before);
            assert(be_bytes(rest_before, left_before) =~= be_bytes(rest as nat, left as nat).push(
                (rest_before % 256) as u8,
            ));
            assert(be_bytes(rest as nat, left as nat).push((rest_before % 256) as u8) + before
                =~= be_bytes(rest as nat, left as nat) + bytes@.skip(left as int));
        }
    }
    proof {
        assert(bytes@.skip(0) =~= bytes@);
        assert(be_bytes(rest as nat, 0) + bytes@ =~= bytes@);
    }
    bytes
}

/// The word in the four bytes at `at`, least significant first.
pub fn u32_from_le(bytes: &[u8], at: usize) -> (word: u32)
    requires
        at + 4 <= bytes@.len(),
    ensures
        word == le_word(bytes@, at as int),
{
    bytes[at] as u32 + bytes[at + 1] as u32 * 0x100 + bytes[at + 2] as u32 * 0x1_0000
        + bytes[at + 3] as u32 * 0x100_0000
}

/// A big-endian byte sequence is read from left to right, every byte as the next digit to the base
/// of 256.
pub proof fn law_be_value_reads_digits(front: Seq<u8>, last: u8)
    ensures
        be_value(Seq::<u8>::empty()) == 0,
        be_value(front.push(last)) == 256 * be_value(front) + last,
{
    assert(front.push(last).drop_last() =~= front);
}

/// A word that is read from four bytes is the sum of them, every one worth 256 times the one
/// before.
pub proof fn law_word_is_read_from_its_bytes(bytes: Seq<u8>, at: int)
    ensures
        le_word(bytes, at) == bytes[at] + 256 * bytes[at + 1] + 65536 * bytes[at + 2] + 16777216
            * bytes[at + 3],
{
}

/// The four bytes of a word make it up, every one worth 256 times the one before.
pub proof fn law_word_is_made_of_its_bytes(word: u32)
    ensures
        le_byte(word, 0) + 256 * le_byte(word, 1) + 65536 * le_byte(word, 2) + 16777216 * le_byte(
            word,
            3,
        ) == word,
{
}

} // verus!
