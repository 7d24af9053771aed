//! SHA-256, as the `sha2` crate computes it, and HMAC-SHA-256 on top of it.

use sha2::{Digest, Sha256};
use vstd::prelude::*;

verus! {

/// The number of bytes below which a message has to stay for SHA-256, whose padding holds the
/// message's length in bits in 64 bits.
pub const MESSAGE_LIMIT: u64 = 0x2000_0000_0000_0000;

/// `sha2::Sha256`: a hash computation under way.
#[verifier::external_type_specification]
#[verifier::external_body]
pub struct ExSha256(Sha256);

/// The bytes that a hash computation has taken in so far.
pub uninterp spec fn absorbed(hasher: Sha256) -> Seq<u8>;

/// The SHA-256 digest of a message.
pub uninterp spec fn sha256(message: Seq<u8>) -> Seq<u8>;

/// `<sha2::Sha256 as sha2::Digest>::new`: a hash computation that has taken in nothing.
#[verifier::external_body]
pub(crate) fn sha256_new() -> (hasher: Sha256)
    ensures
        absorbed(hasher) == Seq::<u8>::empty(),
{
    Sha256::new()
}

/// `<sha2::Sha256 as sha2::Digest>::update`: takes in `data` behind what was taken in before. It
/// counts the blocks in 64 bits; the limit keeps the count, and the length in bits that is
/// computed from it in the end, from overflowing.
#[verifier::external_body]
pub(crate) fn sha256_update(hasher: &mut Sha256, data: &[u8])
    requires
        absorbed(*old(hasher)).len() + data@.len() < MESSAGE_LIMIT,
    ensures
        absorbed(*final(hasher)) == absorbed(*old(hasher)) + data@,
{
    Digest::update(hasher, data)
}

/// `<sha2::Sha256 as sha2::Digest>::finalize`: the digest of all that was taken in. It depends on
/// those bytes alone, not on how they were cut up into calls.
#[verifier::external_body]
pub(crate) fn sha256_finalize(hasher: Sha256) -> (digest: [u8; 32])
    requires
        absorbed(hasher).len() < MESSAGE_LIMIT,
    ensures
        digest@ == sha256(absorbed(hasher)),
{
    hasher.finalize().into()
}

/// The digest of `first` followed by `second`.
pub fn sha256_pair(first: &[u8], second: &[u8]) -> (digest: [u8; 32])
    requires
        first@.len() + second@.len() < MESSAGE_LIMIT,
    ensures
        digest@ == sha256(first@ + second@),
{
    let mut hasher = sha256_new();
    sha256_update(&mut hasher, first);
    sha256_update(&mut hasher, second);
    proof {
        assert(Seq::<u8>::empty() + first@ =~= first@);
    }
    sha256_finalize(hasher)
}

/// A key as a block of 64 bytes: its digest where it is longer than a block, filled up with zeros.
pub open spec fn block_key(key: Seq<u8>) -> Seq<u8> {
    let short = if key.len() > 64 {
        sha256(key)
    } else {
        key
    };
    Seq::new(
        64,
        |index: int|
            if index < short.len() {
                short[index]
            } else {
                0u8
            },
    )
}

/// A block with one byte laid over each of its bytes.
pub open spec fn masked(block: Seq<u8>, mask: u8) -> Seq<u8> {
    Seq::new(block.len(), |index: int| mask ^ block[index])
}

/// The authentication code of a message under a key block.
pub open spec fn code_under_block(block: Seq<u8>, message: Seq<u8>) -> Seq<u8> {
    sha256(masked(block, 0x5c) + sha256(masked(block, 0x36) + message))
}

/// HMAC-SHA-256 of a message under a key.
pub open spec fn hmac_sha256(key: Seq<u8>, message: Seq<u8>) -> Seq<u8> {
    code_under_block(block_key(key), message)
}

/// An HMAC-SHA-256 computation under way.
pub struct HmacSha256 {
    inner: Sha256,
    outer_key: [u8; 64],
}

impl HmacSha256 {
    /// The key, as a block.
    pub closed spec fn block(&self) -> Seq<u8> {
        masked(self.outer_key@, 0x5c)
    }

    /// The part of the message that has been taken in.
    pub closed spec fn message(&self) -> Seq<u8> {
        absorbed(self.inner).skip(64)
    }

    /// The inner hash has taken in the masked key block and then the message, which leaves room
    /// for the block below the limit.
    pub closed spec fn wf(&self) -> bool {
        &&& absorbed(self.inner).len() >= 64
        &&& absorbed(self.inner).len() < MESSAGE_LIMIT
        &&& absorbed(self.inner).take(64) == masked(self.block(), 0x36)
    }

    /// A computation under a key, with nothing of the message taken in.
    pub fn new(key: &[u8]) -> (code: HmacSha256)
        requires
            key@.len() < MESSAGE_LIMIT,
        ensures
            code.wf(),
            code.block() == block_key(key@),
            code.message() == Seq::<u8>::empty(),
    {
        let mut normalized: [u8; 64] = [0; 64];
        if key.len() > 64 {
            let mut hasher = sha256_new();
            sha256_update(&mut hasher, key);
            proof {
                assert(Seq::<u8>::empty() + key@ =~= key@);
            }
            let digest: [u8; 32] = sha256_finalize(hasher);
            let mut index: usize = 0;
            while index < 32
                invariant
                    index <= 32,
                    forall|at: int| 0 <= at < index ==> normalized@[at] == digest@[at],
                    forall|at: int| index <= at < 64 ==> normalized@[at] == 0,
                decreases 32 - index,
            {
                normalized[index] = digest[index];
                index = index + 1;
            }
        } else {
            let length: usize = key.len();
            let mut index: usize = 0;
            while index < length
                invariant
                    index <= length,
                    length == key@.len(),
                    length <= 64,
                    forall|at: int| 0 <= at < index ==> normalized@[at] == key@[at],
                    forall|at: int| index <= at < 64 ==> normalized@[at] == 0,
                decreases length - index,
            {
                normalized[index] = key[index];
                index = index + 1;
            }
        }
        assert(normalized@ =~= block_key(key@));

        let mut inner_key: [u8; 64] = [0x36; 64];
        let mut outer_key: [u8; 64] = [0x5c; 64];
        let mut index: usize = 0;
        while index < 64
            invariant
                index <= 64,
                forall|at: int| 0 <= at < index ==> inner_key@[at] == 0x36u8 ^ normalized@[at],
                forall|at: int| 0 <= at < index ==> outer_key@[at] == 0x5cu8 ^ normalized@[at],
                forall|at: int| index <= at < 64 ==> inner_key@[at] == 0x36,
                forall|at: int| index <= at < 64 ==> outer_key@[at] == 0x5c,
            decreases 64 - index,
        {
            inner_key[index] = inner_key[index] ^ normalized[index];
            outer_key[index] = outer_key[index] ^ normalized[index];
            index = index + 1;
        }

        let mut inner = sha256_new();
        sha256_update(&mut inner, &inner_key);
        let code = HmacSha256 { inner, outer_key };
        proof {
            assert(outer_key@ =~= masked(normalized@, 0x5c));
            lemma_masked_twice(normalized@, 0x5c);
            assert(absorbed(inner) =~= inner_key@);
            assert(inner_key@ =~= masked(normalized@, 0x36));
            assert(absorbed(inner).take(64) =~= inner_key@);
            assert(absorbed(inner).skip(64) =~= Seq::<u8>::empty());
        }
        code
    }

    /// Takes in the next part of the message.
    pub fn update(&mut self, data: &[u8])
        requires
            old(self).wf(),
            old(self).message().len() + data@.len() + 64 < MESSAGE_LIMIT,
        ensures
            final(self).wf(),
            final(self).block() == old(self).block(),
            final(self).message() == old(self).message() + data@,
    {
        let ghost before = absorbed(self.inner);
        sha256_update(&mut self.inner, data);
        proof {
            assert((before + data@).take(64) =~= before.take(64));
            assert((before + data@).skip(64) =~= before.skip(64) + data@);
        }
    }

    /// The authentication code of the message.
    pub fn finalize(self) -> (code: [u8; 32])
        requires
            self.wf(),
        ensures
            code@ == code_under_block(self.block(), self.message()),
    {
        let ghost taken = absorbed(self.inner);
        let inner: [u8; 32] = sha256_finalize(self.inner);
        proof {
            assert(taken =~= taken.take(64) + taken.skip(64));
            assert(masked(masked(self.outer_key@, 0x5c), 0x5c) =~= self.outer_key@) by {
                lemma_masked_twice(self.outer_key@, 0x5c);
            }
        }
        sha256_pair(&self.outer_key, &inner)
    }
}

/// Laying the same byte over a block twice gives the block back.
proof fn lemma_masked_twice(block: Seq<u8>, mask: u8)
    ensures
        masked(masked(block, mask), mask) == block,
{
    let twice = masked(masked(block, mask), mask);
    assert forall|index: int| 0 <= index < block.len() implies twice[index] == block[index] by {
        let byte = block[index];
        assert(mask ^ (mask ^ byte) == byte) by (bit_vector);
    }
    assert(twice =~= block);
}

/// Whether two byte strings are the same, found by looking at every byte of equally long ones.
pub fn constant_time_eq(left: &[u8], right: &[u8]) -> (same: bool)
    ensures
        same == (left@ == right@),
{
    if left.len() != right.len() {
        return false;
    }
    let length: usize = left.len();
    let mut diff: u8 = 0;
    let mut index: usize = 0;
    assert(left@.take(0) =~= right@.take(0));
    while index < length
        invariant
            index <= length,
            length == left@.len(),
            length == right@.len(),
            diff == 0 <==> left@.take(index as int) == right@.take(index as int),
        decreases length - index,
    {
        let ghost before = diff;
        let l: u8 = left[index];
        let r: u8 = right[index];
        diff = diff | (l ^ r);
        proof {
            assert(before | (l ^ r) == 0 <==> before == 0 && l == r) by (bit_vector);
            let left_next = left@.take(index + 1);
            let right_next = right@.take(index + 1);
            assert(left_next =~= left@.take(index as int).push(l));
            assert(right_next =~= right@.take(index as int).push(r));
            if diff == 0 {
                assert(left_next =~= right_next);
            }
            if left_next == right_next {
                assert(left@.take(index as int) =~= left_next.drop_last());
                assert(right@.take(index as int) =~= right_next.drop_last());
                assert(left_next.last() == l && right_next.last() == r);
            }
        }
        index = index + 1;
    }
    proof {
        assert(left@.take(length as int) =~= left@);
        assert(right@.take(length as int) =~= right@);
    }
    diff == 0
}

/// The code of a message is that of RFC 2104 with SHA-256: a key of at most 64 bytes is filled up
/// with zeros to 64, and laid over with 0x36 for the inner hash of the message and with 0x5c for the
/// outer hash of the inner one; a longer key is hashed first.
pub proof fn law_code_is_that_of_rfc_2104(
    key: Seq<u8>,
    message: Seq<u8>,
    inner: Seq<u8>,
    outer: Seq<u8>,
)
    requires
        inner.len() == 64,
        outer.len() == 64,
        forall|index: int|
            0 <= index < 64 ==> #[trigger] inner[index] == 0x36u8 ^ (if index < key.len() {
                key[index]
            } else {
                0u8
            }),
        forall|index: int|
            0 <= index < 64 ==> #[trigger] outer[index] == 0x5cu8 ^ (if index < key.len() {
                key[index]
            } else {
                0u8
            }),
    ensures
        key.len() <= 64 ==> hmac_sha256(key, message) == sha256(outer + sha256(inner + message)),
        key.len() > 64 && sha256(key).len() <= 64 ==> hmac_sha256(key, message) == hmac_sha256(
            sha256(key),
            message,
        ),
        code_under_block(block_key(key), message) == hmac_sha256(key, message),
{
    if key.len() <= 64 {
        assert(masked(block_key(key), 0x36) =~= inner);
        assert(masked(block_key(key), 0x5c) =~= outer);
    } else if sha256(key).len() <= 64 {
        assert(block_key(key) =~= block_key(sha256(key)));
    }
}

} // verus!
