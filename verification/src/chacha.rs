//! The ChaCha20 block function and the stream cipher made of it.

use crate::bytes;
use vstd::prelude::*;

verus! {

/// The number of bytes after which the 32-bit block counter, and so the key stream, starts over.
pub const STREAM_PERIOD: u64 = 0x40_0000_0000;

/// The sum of two words, modulo 2^32.
pub open spec fn word_sum(left: u32, right: u32) -> u32 {
    ((left + right) % 0x1_0000_0000) as u32
}

/// A word rotated left by `count` bits.
pub open spec fn rotated(word: u32, count: u32) -> u32 {
    (word << count) | (word >> ((32 - count) as u32))
}

/// A state after one of the four updates of a quarter round: the word `b` is added to the word
/// `a`, and the sum is laid over the word `d`, which is rotated.
pub open spec fn updated(state: Seq<u32>, a: int, b: int, d: int, count: u32) -> Seq<u32> {
    let summed = state.update(a, word_sum(state[a], state[b]));
    summed.update(d, rotated(summed[d] ^ summed[a], count))
}

/// A state after the quarter round on its words `a`, `b`, `c` and `d`.
pub open spec fn quartered(state: Seq<u32>, a: int, b: int, c: int, d: int) -> Seq<u32> {
    let first = updated(state, a, b, d, 16);
    let second = updated(first, c, d, b, 12);
    let third = updated(second, a, b, d, 8);
    updated(third, c, d, b, 7)
}

/// A state after quarter rounds on its four columns.
pub open spec fn column_round(state: Seq<u32>) -> Seq<u32> {
    quartered(
        quartered(quartered(quartered(state, 0, 4, 8, 12), 1, 5, 9, 13), 2, 6, 10, 14),
        3,
        7,
        11,
        15,
    )
}

/// A state after quarter rounds on its four diagonals.
pub open spec fn diagonal_round(state: Seq<u32>) -> Seq<u32> {
    quartered(
        quartered(quartered(quartered(state, 0, 5, 10, 15), 1, 6, 11, 12), 2, 7, 8, 13),
        3,
        4,
        9,
        14,
    )
}

/// A state after `count` double rounds.
pub open spec fn rounds(state: Seq<u32>, count: nat) -> Seq<u32>
    decreases count,
{
    if count == 0 {
        state
    } else {
        diagonal_round(column_round(rounds(state, (count - 1) as nat)))
    }
}

/// The state that a block starts from: the constant "expand 32-byte k", the key, the counter and
/// the first twelve bytes of the nonce.
pub open spec fn initial_state(key: Seq<u8>, counter: u32, nonce: Seq<u8>) -> Seq<u32> {
    seq![0x6170_7865u32, 0x3320_646eu32, 0x7962_2d32u32, 0x6b20_6574u32] + Seq::new(
        8,
        |index: int| bytes::le_word(key, 4 * index),
    ) + seq![
        counter,
        bytes::le_word(nonce, 0),
        bytes::le_word(nonce, 4),
        bytes::le_word(nonce, 8),
    ]
}

/// The block of key stream for a key, a counter and a nonce.
#[verifier::opaque]
pub open spec fn block(key: Seq<u8>, counter: u32, nonce: Seq<u8>) -> Seq<u8> {
    let start = initial_state(key, counter, nonce);
    let end = rounds(start, 10);
    Seq::new(
        64,
        |index: int| bytes::le_byte(word_sum(end[index / 4], start[index / 4]), index % 4),
    )
}

/// Byte `position` of the key stream of a key and a nonce.
pub open spec fn stream_byte(key: Seq<u8>, nonce: Seq<u8>, position: int) -> u8 {
    block(key, ((position / 64) % 0x1_0000_0000) as u32, nonce)[position % 64]
}

/// Data with the key stream from `position` on laid over it.
pub open spec fn encrypted(key: Seq<u8>, nonce: Seq<u8>, position: int, data: Seq<u8>) -> Seq<u8> {
    Seq::new(data.len(), |index: int| data[index] ^ stream_byte(key, nonce, position + index))
}

/// The sum of two words, modulo 2^32.
fn add_words(left: u32, right: u32) -> (sum: u32)
    ensures
        sum == word_sum(left, right),
{
    left.wrapping_add(right)
}

/// A word rotated left by `count` bits.
fn rotate(word: u32, count: u32) -> (turned: u32)
    requires
        0 < count < 32,
    ensures
        turned == rotated(word, count),
{
    (word << count) | (word >> (32 - count))
}

/// The quarter round on words of a state.
pub fn quarter_round(state: &mut [u32; 16], a: usize, b: usize, c: usize, d: usize)
    requires
        a < 16,
        b < 16,
        c < 16,
        d < 16,
    ensures
        final(state)@ == quartered(old(state)@, a as int, b as int, c as int, d as int),
{
    let ghost start = state@;
    state[a] = add_words(state[a], state[b]);
    state[d] = rotate(state[d] ^ state[a], 16);
    let ghost first = updated(start, a as int, b as int, d as int, 16);
    assert(state@ =~= first);

    state[c] = add_words(state[c], state[d]);
    state[b] = rotate(state[b] ^ state[c], 12);
    let ghost second = updated(first, c as int, d as int, b as int, 12);
    assert(state@ =~= second);

    state[a] = add_words(state[a], state[b]);
    state[d] = rotate(state[d] ^ state[a], 8);
    let ghost third = updated(second, a as int, b as int, d as int, 8);
    assert(state@ =~= third);

    state[c] = add_words(state[c], state[d]);
    state[b] = rotate(state[b] ^ state[c], 7);
    assert(state@ =~= updated(third, c as int, d as int, b as int, 7));
}

/// The block of key stream for a key, a counter and a nonce.
pub fn chacha20_block(key: &[u8; 32], counter: u32, nonce: &[u8; 16]) -> (output: [u8; 64])
    ensures
        output@ == block(key@, counter, nonce@),
{
    let mut state: [u32; 16] = [0; 16];
    state[0] = 0x6170_7865;
    state[1] = 0x3320_646e;
    state[2] = 0x7962_2d32;
    state[3] = 0x6b20_6574;
    let mut index: usize = 0;
    while index < 8
        invariant
            index <= 8,
            state@.len() == 16,
            state@[0] == 0x6170_7865,
            state@[1] == 0x3320_646e,
            state@[2] == 0x7962_2d32,
            state@[3] == 0x6b20_6574,
            forall|word: int|
                0 <= word < index ==> state@[4 + word] == #[trigger] bytes::le_word(key@, 4 * word),
        decreases 8 - index,
    {
        let ghost before = state@;
        state[4 + index] = bytes::u32_from_le(key, 4 * index);
        assert forall|word: int| 0 <= word < index + 1 implies state@[4 + word]
            == #[trigger] bytes::le_word(key@, 4 * word) by {
            if word < index {
                assert(state@[4 + word] == before[4 + word]);
            }
        }
        index = index + 1;
    }
    state[12] = counter;
    state[13] = bytes::u32_from_le(nonce, 0);
    state[14] = bytes::u32_from_le(nonce, 4);
    state[15] = bytes::u32_from_le(nonce, 8);
    let ghost start = initial_state(key@, counter, nonce@);
    assert(state@ =~= start);

    let mut working: [u32; 16] = state;
    let mut done: usize = 0;
    while done < 10
        invariant
            done <= 10,
            working@ == rounds(start, done as nat),
        decreases 10 - done,
    {
        quarter_round(&mut working, 0, 4, 8, 12);
        quarter_round(&mut working, 1, 5, 9, 13);
        quarter_round(&mut working, 2, 6, 10, 14);
        quarter_round(&mut working, 3, 7, 11, 15);
        quarter_round(&mut working, 0, 5, 10, 15);
        quarter_round(&mut working, 1, 6, 11, 12);
        quarter_round(&mut working, 2, 7, 8, 13);
        quarter_round(&mut working, 3, 4, 9, 14);
        done = done + 1;
    }

    reveal(block);
    let mut output: [u8; 64] = [0; 64];
    let ghost whole = block(key@, counter, nonce@);
    let mut at: usize = 0;
    while at < 16
        invariant
            at <= 16,
            state@ == start,
            working@ == rounds(start, 10),
            start == initial_state(key@, counter, nonce@),
            whole == block(key@, counter, nonce@),
            forall|index: int| 0 <= index < 4 * at ==> output@[index] == #[trigger] whole[index],
        decreases 16 - at,
    {
        reveal(block);
        let word: u32 = add_words(working[at], state[at]);
        let ghost before = output@;
        output[4 * at] = (word % 0x100) as u8;
        output[4 * at + 1] = ((word / 0x100) % 0x100) as u8;
        output[4 * at + 2] = ((word / 0x1_0000) % 0x100) as u8;
        output[4 * at + 3] = (word / 0x100_0000) as u8;
        assert forall|index: int| 0 <= index < 4 * (at + 1) implies output@[index]
            == #[trigger] whole[index] by {
            if index < 4 * at {
                assert(output@[index] == before[index]);
            } else {
                assert(index / 4 == at);
            }
        }
        at = at + 1;
    }
    assert(output@ =~= whole);
    output
}

/// A stream cipher: the key stream of a key and a nonce, laid over the data it is given.
pub struct StreamCipher {
    key: [u8; 32],
    nonce: [u8; 16],
    counter: u32,
    block: [u8; 64],
    block_index: usize,
}

impl StreamCipher {
    /// The key.
    pub closed spec fn key(&self) -> Seq<u8> {
        self.key@
    }

    /// The nonce.
    pub closed spec fn nonce(&self) -> Seq<u8> {
        self.nonce@
    }

    /// The place in the key stream, counted from the start of the current period, at which the
    /// next byte of data meets it.
    pub closed spec fn position(&self) -> int {
        (self.counter as int * 64 - 64 + self.block_index as int) % STREAM_PERIOD as int
    }

    /// What is left of the buffered block is key stream from `position` on.
    pub closed spec fn wf(&self) -> bool {
        &&& self.block_index <= 64
        &&& self.block_index < 64 ==> self.block@ == block(
            self.key@,
            ((self.counter as int - 1) % 0x1_0000_0000) as u32,
            self.nonce@,
        )
    }

    /// The cipher at the start of the key stream of a key and a nonce.
    pub fn new(key: [u8; 32], nonce: [u8; 16]) -> (cipher: StreamCipher)
        ensures
            cipher.wf(),
            cipher.key() == key@,
            cipher.nonce() == nonce@,
            cipher.position() == 0,
    {
        StreamCipher { key, nonce, counter: 0, block: [0; 64], block_index: 64 }
    }

    /// Lays the key stream over `data`, and moves on by as much.
    pub fn apply(&mut self, data: &mut [u8])
        requires
            old(self).wf(),
        ensures
            final(self).wf(),
            final(self).key() == old(self).key(),
            final(self).nonce() == old(self).nonce(),
            final(self).position() == (old(self).position() + old(data)@.len())
                % STREAM_PERIOD as int,
            final(data)@ == encrypted(
                old(self).key(),
                old(self).nonce(),
                old(self).position(),
                old(data)@,
            ),
    {
        let ghost start = self.position();
        let ghost original = data@;
        let length: usize = data.len();
        let mut index: usize = 0;
        while index < length
            invariant
                index <= length,
                length == data@.len(),
                length == original.len(),
                original == old(data)@,
                self.wf(),
                self.key() == old(self).key(),
                self.nonce() == old(self).nonce(),
                start == old(self).position(),
                self.position() == (start + index) % STREAM_PERIOD as int,
                forall|done: int|
                    0 <= done < index ==> #[trigger] data@[done] == original[done] ^ stream_byte(
                        self.key(),
                        self.nonce(),
                        start + done,
                    ),
                forall|later: int|
                    index <= later < length ==> #[trigger] data@[later] == original[later],
            decreases length - index,
        {
            if self.block_index >= 64 {
                self.refill();
            }
            let ghost before = data@;
            proof {
                lemma_buffered_byte(
                    self.counter as int,
                    self.block_index as int,
                    start + index as int,
                );
            }
            data[index] = data[index] ^ self.block[self.block_index];
            self.block_index = self.block_index + 1;
            proof {
                assert(data@ =~= before.update(index as int, data@[index as int]));
                lemma_position_step(
                    self.counter as int * 64 - 64 + self.block_index - 1,
                    start + index as int,
                );
            }
            index = index + 1;
        }
        proof {
            vstd::arithmetic::div_mod::lemma_small_mod(start as nat, STREAM_PERIOD as nat);
            assert(data@ =~= encrypted(self.key(), self.nonce(), start, original));
        }
    }

    /// Replaces the used up block with the next one.
    fn refill(&mut self)
        requires
            old(self).wf(),
            old(self).block_index == 64,
        ensures
            final(self).wf(),
            final(self).block_index == 0,
            final(self).key == old(self).key,
            final(self).nonce == old(self).nonce,
            final(self).position() == old(self).position(),
    {
        self.block = chacha20_block(&self.key, self.counter, &self.nonce);
        let ghost counter = self.counter as int;
        self.counter = self.counter.wrapping_add(1);
        self.block_index = 0;
        proof {
            assert((self.counter as int - 1) % 0x1_0000_0000 == counter);
            assert((self.counter as int * 64 - 64) % STREAM_PERIOD as int == (counter * 64 - 64
                + 64) % STREAM_PERIOD as int);
        }
    }
}

/// A place in the key stream is found in the block that the counter and the index say.
proof fn lemma_buffered_byte(counter: int, index: int, position: int)
    requires
        0 <= counter < 0x1_0000_0000,
        0 <= index < 64,
        0 <= position,
        (counter * 64 - 64 + index) % STREAM_PERIOD as int == position % STREAM_PERIOD as int,
    ensures
        (position / 64) % 0x1_0000_0000 == (counter - 1) % 0x1_0000_0000,
        position % 64 == index,
{
    let whole = STREAM_PERIOD as int;
    let turns = position / whole;
    let place = position % whole;
    assert(position == turns * whole + place) by {
        vstd::arithmetic::div_mod::lemma_fundamental_div_mod(position, whole);
    }
    assert(place == (if counter == 0 { whole - 64 + index } else { counter * 64 - 64 + index }));
    assert(position / 64 == turns * 0x1_0000_0000 + place / 64);
    vstd::arithmetic::div_mod::lemma_mod_multiples_vanish(turns, place / 64, 0x1_0000_0000);
}

/// Equal places stay equal one byte on.
proof fn lemma_position_step(left: int, right: int)
    requires
        left % STREAM_PERIOD as int == right % STREAM_PERIOD as int,
    ensures
        (left + 1) % STREAM_PERIOD as int == (right + 1) % STREAM_PERIOD as int,
{
    vstd::arithmetic::div_mod::lemma_add_mod_noop(left, 1, STREAM_PERIOD as int);
    vstd::arithmetic::div_mod::lemma_add_mod_noop(right, 1, STREAM_PERIOD as int);
}

/// What one cipher encrypts, a cipher with the same key and nonce at the same place decrypts.
pub proof fn law_decrypts_what_it_encrypts(
    key: Seq<u8>,
    nonce: Seq<u8>,
    position: int,
    data: Seq<u8>,
)
    ensures
        encrypted(key, nonce, position, encrypted(key, nonce, position, data)) == data,
{
    let once = encrypted(key, nonce, position, data);
    let twice = encrypted(key, nonce, position, once);
    assert forall|index: int| 0 <= index < data.len() implies twice[index] == data[index] by {
        let byte = data[index];
        let mask = stream_byte(key, nonce, position + index);
        assert((byte ^ mask) ^ mask == byte) by (bit_vector);
    }
    assert(twice =~= data);
}

/// The key stream starts over after `STREAM_PERIOD` bytes.
pub proof fn law_stream_is_periodic(key: Seq<u8>, nonce: Seq<u8>, position: int)
    requires
        0 <= position,
    ensures
        stream_byte(key, nonce, position % STREAM_PERIOD as int) == stream_byte(
            key,
            nonce,
            position,
        ),
{
    let whole = STREAM_PERIOD as int;
    let turns = position / whole;
    let place = position % whole;
    vstd::arithmetic::div_mod::lemma_fundamental_div_mod(position, whole);
    assert(position / 64 == turns * 0x1_0000_0000 + place / 64);
    vstd::arithmetic::div_mod::lemma_mod_multiples_vanish(turns, place / 64, 0x1_0000_0000);
}

/// Data that goes through a cipher in two pieces comes out as it would in one.
pub proof fn law_pieces_make_the_whole(
    key: Seq<u8>,
    nonce: Seq<u8>,
    position: int,
    first: Seq<u8>,
    second: Seq<u8>,
)
    requires
        0 <= position,
    ensures
        encrypted(key, nonce, position, first + second) == encrypted(key, nonce, position, first)
            + encrypted(
            key,
            nonce,
            (position + first.len()) % STREAM_PERIOD as int,
            second,
        ),
{
    let middle = (position + first.len()) % STREAM_PERIOD as int;
    let left = encrypted(key, nonce, position, first + second);
    let right = encrypted(key, nonce, position, first) + encrypted(key, nonce, middle, second);
    assert forall|index: int| 0 <= index < left.len() implies left[index] == right[index] by {
        if index >= first.len() {
            let inner = index - first.len();
            law_stream_is_periodic(key, nonce, position + index);
            law_stream_is_periodic(key, nonce, middle + inner);
            vstd::arithmetic::div_mod::lemma_add_mod_noop_right(
                inner,
                position + first.len(),
                STREAM_PERIOD as int,
            );
        }
    }
    assert(left =~= right);
}

/// Data meets the same key stream at a place and at the same place of the first period.
pub proof fn lemma_encrypted_wraps(key: Seq<u8>, nonce: Seq<u8>, position: int, data: Seq<u8>)
    requires
        0 <= position,
    ensures
        encrypted(key, nonce, position % STREAM_PERIOD as int, data) == encrypted(
            key,
            nonce,
            position,
            data,
        ),
{
    let nothing = Seq::<u8>::empty();
    law_pieces_make_the_whole(key, nonce, position, nothing, data);
    assert(nothing + data =~= data);
    assert(encrypted(key, nonce, position, nothing) =~= nothing);
    let wrapped = encrypted(key, nonce, position % STREAM_PERIOD as int, data);
    assert(nothing + wrapped =~= wrapped);
}

/// A block starts from sixteen words: the four of the constant, the eight of the key, the counter
/// itself, whatever it is, and the first three of the nonce. A word holds four bytes, the least
/// significant first.
pub proof fn law_block_starts_from_its_inputs(key: Seq<u8>, counter: u32, nonce: Seq<u8>)
    requires
        key.len() == 32,
        nonce.len() == 16,
    ensures
        ({
            let start = initial_state(key, counter, nonce);
            &&& start.len() == 16
            &&& start[0] == 0x6170_7865
            &&& start[1] == 0x3320_646e
            &&& start[2] == 0x7962_2d32
            &&& start[3] == 0x6b20_6574
            &&& start[12] == counter
            &&& forall|word: int|
                0 <= word < 8 ==> #[trigger] start[4 + word] == key[4 * word] + 256 * key[4 * word
                    + 1] + 65536 * key[4 * word + 2] + 16777216 * key[4 * word + 3]
            &&& forall|word: int|
                0 <= word < 3 ==> #[trigger] start[13 + word] == nonce[4 * word] + 256 * nonce[4
                    * word + 1] + 65536 * nonce[4 * word + 2] + 16777216 * nonce[4 * word + 3]
        }),
{
    let start = initial_state(key, counter, nonce);
    assert forall|word: int| 0 <= word < 8 implies #[trigger] start[4 + word] == key[4 * word] + 256
        * key[4 * word + 1] + 65536 * key[4 * word + 2] + 16777216 * key[4 * word + 3] by {
        bytes::law_word_is_read_from_its_bytes(key, 4 * word);
    }
    assert forall|word: int| 0 <= word < 3 implies #[trigger] start[13 + word] == nonce[4 * word]
        + 256 * nonce[4 * word + 1] + 65536 * nonce[4 * word + 2] + 16777216 * nonce[4 * word
        + 3] by {
        bytes::law_word_is_read_from_its_bytes(nonce, 4 * word);
        assert(word == 0 || word == 1 || word == 2);
    }
}

/// No two counters have blocks that start from the same words.
pub proof fn law_counters_start_different_blocks(
    key: Seq<u8>,
    first: u32,
    second: u32,
    nonce: Seq<u8>,
)
    requires
        first != second,
    ensures
        initial_state(key, first, nonce) != initial_state(key, second, nonce),
{
    assert(initial_state(key, first, nonce)[12] == first);
    assert(initial_state(key, second, nonce)[12] == second);
}

/// The quarter round on four different words: each of them is added to, laid over and rotated in
/// turn, by 16, 12, 8 and 7 bits to the left, and the other words stay as they are.
pub proof fn law_quarter_round_turns_four_words(
    state: Seq<u32>,
    a: int,
    b: int,
    c: int,
    d: int,
    other: int,
)
    requires
        state.len() == 16,
        0 <= a < 16,
        0 <= b < 16,
        0 <= c < 16,
        0 <= d < 16,
        a != b && a != c && a != d && b != c && b != d && c != d,
        0 <= other < 16,
        other != a && other != b && other != c && other != d,
    ensures
        ({
            let a1 = ((state[a] + state[b]) % 0x1_0000_0000) as u32;
            let x1 = state[d] ^ a1;
            let d1 = (x1 << 16u32) | (x1 >> 16u32);
            let c1 = ((state[c] + d1) % 0x1_0000_0000) as u32;
            let y1 = state[b] ^ c1;
            let b1 = (y1 << 12u32) | (y1 >> 20u32);
            let a2 = ((a1 + b1) % 0x1_0000_0000) as u32;
            let x2 = d1 ^ a2;
            let d2 = (x2 << 8u32) | (x2 >> 24u32);
            let c2 = ((c1 + d2) % 0x1_0000_0000) as u32;
            let y2 = b1 ^ c2;
            let b2 = (y2 << 7u32) | (y2 >> 25u32);
            let after = quartered(state, a, b, c, d);
            &&& after.len() == 16
            &&& after[a] == a2
            &&& after[b] == b2
            &&& after[c] == c2
            &&& after[d] == d2
            &&& after[other] == state[other]
        }),
{
}

/// A double round is the quarter round on the four columns of the state, and then on its four
/// diagonals.
pub proof fn law_double_round_goes_over_columns_and_diagonals(state: Seq<u32>, count: nat)
    ensures
        rounds(state, 0) == state,
        ({
            let s0 = rounds(state, count);
            let s1 = quartered(s0, 0, 4, 8, 12);
            let s2 = quartered(s1, 1, 5, 9, 13);
            let s3 = quartered(s2, 2, 6, 10, 14);
            let s4 = quartered(s3, 3, 7, 11, 15);
            let s5 = quartered(s4, 0, 5, 10, 15);
            let s6 = quartered(s5, 1, 6, 11, 12);
            let s7 = quartered(s6, 2, 7, 8, 13);
            rounds(state, count + 1) == quartered(s7, 3, 4, 9, 14)
        }),
{
}

/// The block of a counter, read as sixteen words of four bytes each, the least significant first,
/// is the sum of the words that it starts from and of what ten double rounds make of them.
pub proof fn law_block_is_the_start_and_ten_double_rounds(
    key: Seq<u8>,
    counter: u32,
    nonce: Seq<u8>,
)
    ensures
        ({
            let start = initial_state(key, counter, nonce);
            let end = rounds(start, 10);
            let out = block(key, counter, nonce);
            &&& out.len() == 64
            &&& forall|word: int|
                0 <= word < 16 ==> out[4 * word] + 256 * out[4 * word + 1] + 65536 * out[4 * word
                    + 2] + 16777216 * out[4 * word + 3] == (#[trigger] end[word] + start[word])
                    % 0x1_0000_0000
        }),
{
    reveal(block);
    let start = initial_state(key, counter, nonce);
    let end = rounds(start, 10);
    let out = block(key, counter, nonce);
    assert forall|word: int| 0 <= word < 16 implies out[4 * word] + 256 * out[4 * word + 1] + 65536
        * out[4 * word + 2] + 16777216 * out[4 * word + 3] == (#[trigger] end[word] + start[word])
        % 0x1_0000_0000 by {
        let sum = word_sum(end[word], start[word]);
        bytes::law_word_is_made_of_its_bytes(sum);
        assert((4 * word) / 4 == word && (4 * word) % 4 == 0);
        assert((4 * word + 1) / 4 == word && (4 * word + 1) % 4 == 1);
        assert((4 * word + 2) / 4 == word && (4 * word + 2) % 4 == 2);
        assert((4 * word + 3) / 4 == word && (4 * word + 3) % 4 == 3);
    }
}

/// A byte of data meets the byte of the block whose counter is its place divided by 64, for as long
/// as the counter goes; after 2^38 bytes the key stream starts over.
pub proof fn law_data_meets_the_blocks_in_turn(
    key: Seq<u8>,
    nonce: Seq<u8>,
    position: int,
    data: Seq<u8>,
    index: int,
)
    requires
        0 <= position,
        0 <= index < data.len(),
    ensures
        encrypted(key, nonce, position, data).len() == data.len(),
        position + index < 0x40_0000_0000 ==> encrypted(key, nonce, position, data)[index]
            == data[index] ^ block(key, ((position + index) / 64) as u32, nonce)[(position + index)
            % 64],
        encrypted(key, nonce, position + 0x40_0000_0000, data)[index] == encrypted(
            key,
            nonce,
            position,
            data,
        )[index],
{
    law_stream_is_periodic(key, nonce, position + index);
    law_stream_is_periodic(key, nonce, position + 0x40_0000_0000 + index);
    assert((position + 0x40_0000_0000 + index) % 0x40_0000_0000 == (position + index)
        % 0x40_0000_0000);
}

} // verus!
