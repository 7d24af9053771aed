//! The key exchange of the transfer protocol, and the keys that a transfer runs under.

use crate::bytes;
use crate::chacha::StreamCipher;
use crate::encoding;
use crate::hmac;
use crate::hmac::HmacSha256;
use crate::modular;
use crate::modular::{DH_GENERATOR, DH_PRIME};
use vstd::arithmetic::power::*;
use vstd::prelude::*;
use vstd::utf8::*;

verus! {

/// The name of the cryptography of a transfer.
pub const CRYPTO_MODE: &'static str = "dh-sha256-stream-v1";

/// What the exchanged secret is hashed behind.
pub const TRANSFER_CONTEXT: &'static str = "file-sharer-transfer-v2";

/// What the transfer key is hashed behind to become the cipher key.
pub const CIPHER_CONTEXT: &'static str = "file-sharer-cipher-v2";

/// What the transfer key is hashed behind to become the authentication key.
pub const MAC_CONTEXT: &'static str = "file-sharer-mac-v2";

/// The keys and the nonce of one transfer.
#[verifier::ext_equal]
pub struct TransferKeys {
    pub cipher_key: Seq<u8>,
    pub mac_key: Seq<u8>,
    pub nonce: Seq<u8>,
}

/// The number that the two ends of a transfer hash out of the secret they share and the public
/// keys of both.
pub open spec fn transfer_key(shared: nat, sender_public: nat, receiver_public: nat) -> Seq<u8> {
    hmac::sha256(
        encode_utf8(TRANSFER_CONTEXT@) + bytes::be_bytes(shared, 16) + bytes::be_bytes(
            sender_public,
            16,
        ) + bytes::be_bytes(receiver_public, 16),
    )
}

/// The keys of a transfer between two public keys whose holders share a secret.
pub open spec fn derived_keys(
    shared: nat,
    sender_public: nat,
    receiver_public: nat,
    nonce: Seq<u8>,
) -> TransferKeys {
    let key = transfer_key(shared, sender_public, receiver_public);
    TransferKeys {
        cipher_key: hmac::sha256(encode_utf8(CIPHER_CONTEXT@) + key),
        mac_key: hmac::sha256(encode_utf8(MAC_CONTEXT@) + key),
        nonce,
    }
}

/// The private key made of sixteen random bytes: their low 127 bits, brought into the range from
/// 2 to the prime less 2.
pub open spec fn private_of(random: Seq<u8>) -> nat {
    bytes::be_value(random.update(0, random[0] & 0x7f)) % ((DH_PRIME - 3) as nat) + 2
}

/// The public key of a private one.
pub open spec fn public_of(private: nat) -> nat {
    modular::power(DH_GENERATOR as nat, private)
}

/// The keys and the nonce of one transfer.
pub struct TransferCrypto {
    cipher_key: [u8; 32],
    mac_key: [u8; 32],
    nonce: [u8; 16],
}

impl Clone for TransferCrypto {
    fn clone(&self) -> (copy: Self)
        ensures
            copy == *self,
    {
        TransferCrypto { cipher_key: self.cipher_key, mac_key: self.mac_key, nonce: self.nonce }
    }
}

impl TransferCrypto {
    /// The keys and the nonce.
    pub closed spec fn keys(&self) -> TransferKeys {
        TransferKeys {
            cipher_key: self.cipher_key@,
            mac_key: self.mac_key@,
            nonce: self.nonce@,
        }
    }

    /// A transfer's cryptography from its keys and its nonce.
    pub fn from_keys(
        cipher_key: [u8; 32],
        mac_key: [u8; 32],
        nonce: [u8; 16],
    ) -> (crypto: TransferCrypto)
        ensures
            crypto.keys() == (TransferKeys {
                cipher_key: cipher_key@,
                mac_key: mac_key@,
                nonce: nonce@,
            }),
    {
        TransferCrypto { cipher_key, mac_key, nonce }
    }

    /// The transfer's cipher, at its start.
    pub fn stream_cipher(&self) -> (cipher: StreamCipher)
        ensures
            cipher.wf(),
            cipher.key() == self.keys().cipher_key,
            cipher.nonce() == self.keys().nonce,
            cipher.position() == 0,
    {
        StreamCipher::new(self.cipher_key, self.nonce)
    }

    /// The computation of the transfer's authentication code, at its start.
    pub fn hmac(&self) -> (code: HmacSha256)
        ensures
            code.wf(),
            code.block() == hmac::block_key(self.keys().mac_key),
            code.message() == Seq::<u8>::empty(),
    {
        HmacSha256::new(&self.mac_key)
    }
}

/// The keys of a transfer between two public keys whose holders share a secret.
pub fn derive_transfer_crypto(
    shared: u128,
    sender_public: u128,
    receiver_public: u128,
    nonce: [u8; 16],
) -> (crypto: TransferCrypto)
    ensures
        crypto.keys() == derived_keys(
            shared as nat,
            sender_public as nat,
            receiver_public as nat,
            nonce@,
        ),
{
    proof {
        reveal_strlit("file-sharer-transfer-v2");
        reveal_strlit("file-sharer-cipher-v2");
        reveal_strlit("file-sharer-mac-v2");
        is_ascii_chars_encode_utf8(TRANSFER_CONTEXT@);
        is_ascii_chars_encode_utf8(CIPHER_CONTEXT@);
        is_ascii_chars_encode_utf8(MAC_CONTEXT@);
    }
    let mut transfer = hmac::sha256_new();
    hmac::sha256_update(&mut transfer, TRANSFER_CONTEXT.as_bytes());
    hmac::sha256_update(&mut transfer, &bytes::u128_to_be(shared));
    hmac::sha256_update(&mut transfer, &bytes::u128_to_be(sender_public));
    hmac::sha256_update(&mut transfer, &bytes::u128_to_be(receiver_public));
    proof {
        assert(Seq::<u8>::empty() + encode_utf8(TRANSFER_CONTEXT@) =~= encode_utf8(
            TRANSFER_CONTEXT@,
        ));
    }
    let key: [u8; 32] = hmac::sha256_finalize(transfer);
    let cipher_key: [u8; 32] = hmac::sha256_pair(CIPHER_CONTEXT.as_bytes(), &key);
    let mac_key: [u8; 32] = hmac::sha256_pair(MAC_CONTEXT.as_bytes(), &key);
    TransferCrypto::from_keys(cipher_key, mac_key, nonce)
}

/// The private key made of sixteen random bytes, unless there are none.
pub fn random_private(random: Result<[u8; 16], String>) -> (private: Result<u128, String>)
    ensures
        match random {
            Ok(content) => private matches Ok(number) && number == private_of(content@) && 2
                <= number <= DH_PRIME - 2,
            Err(error) => private == Err::<u128, String>(error),
        },
{
    match random {
        Err(error) => Err(error),
        Ok(content) => {
            let mut content: [u8; 16] = content;
            content[0] = content[0] & 0x7f;
            Ok(bytes::u128_from_be(&content) % (DH_PRIME - 3) + 2)
        },
    }
}

/// A private key with the public key that belongs to it.
pub struct KeyPair {
    private: u128,
    public: u128,
    public_header: String,
}

impl Clone for KeyPair {
    fn clone(&self) -> (copy: Self)
        ensures
            copy == *self,
    {
        KeyPair {
            private: self.private,
            public: self.public,
            public_header: self.public_header.clone(),
        }
    }
}

impl KeyPair {
    /// The private key.
    pub closed spec fn private(&self) -> nat {
        self.private as nat
    }

    /// The public key.
    pub closed spec fn public(&self) -> nat {
        self.public as nat
    }

    /// The text in which the public key is made known.
    pub closed spec fn header(&self) -> Seq<char> {
        self.public_header@
    }

    /// The private key is in its range, the public key belongs to it, and the header holds the
    /// public key, in twenty-four characters.
    pub open spec fn wf(&self) -> bool {
        &&& 2 <= self.private() <= DH_PRIME - 2
        &&& self.public() == public_of(self.private())
        &&& self.header() == encoding::base64_text(bytes::be_bytes(self.public(), 16))
        &&& self.header().len() == 24
        &&& encoding::is_base64(self.header())
        &&& encoding::decodes_to(self.header(), bytes::be_bytes(self.public(), 16))
    }

    /// The key pair made of sixteen random bytes, unless there are none.
    pub fn generate(random: Result<[u8; 16], String>) -> (pair: Result<KeyPair, String>)
        ensures
            match random {
                Ok(content) => pair matches Ok(keys) && keys.wf() && keys.private() == private_of(
                    content@,
                ),
                Err(error) => pair == Err::<KeyPair, String>(error),
            },
    {
        match random_private(random) {
            Err(error) => Err(error),
            Ok(private) => {
                let public: u128 = modular::dh_public(private);
                Ok(KeyPair { private, public, public_header: encoding::encode_u128(public) })
            },
        }
    }

    /// The text in which the public key is made known.
    pub fn public_header(&self) -> (text: String)
        ensures
            text@ == self.header(),
    {
        self.public_header.clone()
    }

    /// A transfer to the holder of a public key, under a private key of its own and a nonce. The
    /// public key is looked at first, then the randomness for the private key, then that for the
    /// nonce; the first that is missing or wrong is the error.
    pub fn sender_session(
        receiver_public: Result<u128, String>,
        private_random: Result<[u8; 16], String>,
        nonce_random: Result<[u8; 16], String>,
    ) -> (session: Result<SenderSession, String>)
        ensures
            match (receiver_public, private_random, nonce_random) {
                (Err(error), _, _) => session == Err::<SenderSession, String>(error),
                (_, Err(error), _) => session == Err::<SenderSession, String>(error),
                (_, _, Err(error)) => session == Err::<SenderSession, String>(error),
                (Ok(public), Ok(private), Ok(nonce)) => session matches Ok(made) && made@.is_for(
                    private_of(private@),
                    public as nat,
                    nonce@,
                ),
            },
    {
        let receiver_public: u128 = match receiver_public {
            Ok(number) => number,
            Err(error) => return Err(error),
        };
        let private: u128 = match random_private(private_random) {
            Ok(number) => number,
            Err(error) => return Err(error),
        };
        let sender_public: u128 = modular::dh_public(private);
        let shared: u128 = modular::dh_shared(receiver_public, private);
        let nonce: [u8; 16] = match nonce_random {
            Ok(content) => content,
            Err(error) => return Err(error),
        };
        let crypto = derive_transfer_crypto(shared, sender_public, receiver_public, nonce);
        Ok(
            SenderSession {
                sender_public_header: encoding::encode_u128(sender_public),
                nonce_header: encoding::encode_bytes(&nonce),
                crypto,
            },
        )
    }

    /// A transfer to the device whose public key header this is.
    pub fn create_sender_session(
        &self,
        receiver_public_header: &str,
        private_random: Result<[u8; 16], String>,
        nonce_random: Result<[u8; 16], String>,
    ) -> (session: Result<SenderSession, String>)
        ensures
            match encoding::public_key_of(encoding::base64_decoded(receiver_public_header@)) {
                Err(error) => session matches Err(found) && found@ == error,
                Ok(receiver_public) => match (private_random, nonce_random) {
                    (Err(error), _) => session == Err::<SenderSession, String>(error),
                    (_, Err(error)) => session == Err::<SenderSession, String>(error),
                    (Ok(private), Ok(nonce)) => session matches Ok(made) && made@.is_for(
                        private_of(private@),
                        receiver_public,
                        nonce@,
                    ),
                },
            },
    {
        let receiver_public = encoding::decode_u128(receiver_public_header);
        KeyPair::sender_session(receiver_public, private_random, nonce_random)
    }

    /// The transfer that the holder of a public key has started under a nonce.
    pub fn receiver_session(
        &self,
        sender_public: Result<u128, String>,
        nonce: Result<[u8; 16], String>,
    ) -> (crypto: Result<TransferCrypto, String>)
        requires
            self.wf(),
        ensures
            is_session(
                crypto,
                keys_from(
                    self.private(),
                    encoding::key_view(sender_public),
                    encoding::nonce_view(nonce),
                ),
            ),
    {
        let sender_public: u128 = match sender_public {
            Ok(number) => number,
            Err(error) => return Err(error),
        };
        let nonce: [u8; 16] = match nonce {
            Ok(content) => content,
            Err(error) => return Err(error),
        };
        let shared: u128 = modular::dh_shared(sender_public, self.private);
        Ok(derive_transfer_crypto(shared, sender_public, self.public, nonce))
    }

    /// The transfer that a sender has started with these headers.
    pub fn create_receiver_session(
        &self,
        sender_public_header: &str,
        nonce_header: &str,
    ) -> (crypto: Result<TransferCrypto, String>)
        requires
            self.wf(),
        ensures
            is_session(
                crypto,
                receiver_keys(self.private(), sender_public_header@, nonce_header@),
            ),
    {
        self.receiver_session(
            encoding::decode_u128(sender_public_header),
            encoding::decode_nonce(nonce_header),
        )
    }
}

/// Whether a transfer runs under keys, or is missing for the same reason.
pub open spec fn is_session(
    crypto: Result<TransferCrypto, String>,
    expected: Result<TransferKeys, Seq<char>>,
) -> bool {
    match expected {
        Ok(keys) => crypto matches Ok(made) && made.keys() == keys,
        Err(error) => crypto matches Err(found) && found@ == error,
    }
}

/// The keys that the holder of a private key derives from a sender's public key and the nonce, or
/// what is wrong: the public key is looked at first, then the nonce.
pub open spec fn keys_from(
    private: nat,
    sender_public: Result<nat, Seq<char>>,
    nonce: Result<Seq<u8>, Seq<char>>,
) -> Result<TransferKeys, Seq<char>> {
    match (sender_public, nonce) {
        (Err(error), _) => Err(error),
        (_, Err(error)) => Err(error),
        (Ok(public), Ok(content)) => Ok(
            derived_keys(
                modular::power(public, private),
                public,
                public_of(private),
                content,
            ),
        ),
    }
}

/// The keys that the holder of a private key derives from a sender's headers, or what is wrong
/// with them.
pub open spec fn receiver_keys(
    private: nat,
    sender_public_header: Seq<char>,
    nonce_header: Seq<char>,
) -> Result<TransferKeys, Seq<char>> {
    keys_from(
        private,
        encoding::public_key_of(encoding::base64_decoded(sender_public_header)),
        encoding::nonce_of(encoding::base64_decoded(nonce_header)),
    )
}

/// The sender's end of a transfer: what the receiver is told, and the keys.
pub struct SenderSession {
    pub sender_public_header: String,
    pub nonce_header: String,
    pub crypto: TransferCrypto,
}

/// The sender's end of a transfer, by its texts and keys.
#[verifier::ext_equal]
pub struct SessionView {
    pub sender_public: Seq<char>,
    pub nonce: Seq<char>,
    pub keys: TransferKeys,
}

impl View for SenderSession {
    type V = SessionView;

    open spec fn view(&self) -> SessionView {
        SessionView {
            sender_public: self.sender_public_header@,
            nonce: self.nonce_header@,
            keys: self.crypto.keys(),
        }
    }
}

/// The sender's end of a transfer under a private key and a nonce to the holder of a public key.
pub open spec fn session_of(private: nat, receiver_public: nat, nonce: Seq<u8>) -> SessionView {
    let public = public_of(private);
    SessionView {
        sender_public: encoding::base64_text(bytes::be_bytes(public, 16)),
        nonce: encoding::base64_text(nonce),
        keys: derived_keys(
            modular::power(receiver_public, private),
            public,
            receiver_public,
            nonce,
        ),
    }
}

impl SessionView {
    /// Whether this is the sender's end of a transfer under a private key and a nonce to the
    /// holder of a public key, with headers that can be read.
    pub open spec fn is_for(self, private: nat, receiver_public: nat, nonce: Seq<u8>) -> bool {
        &&& self == session_of(private, receiver_public, nonce)
        &&& encoding::is_base64(self.sender_public)
        &&& encoding::decodes_to(self.sender_public, bytes::be_bytes(public_of(private), 16))
        &&& encoding::is_base64(self.nonce)
        &&& encoding::decodes_to(self.nonce, nonce)
    }
}

/// Every public key but 1 is one that a header may hold.
pub proof fn law_public_key_is_acceptable(private: nat)
    requires
        public_of(private) != 1,
    ensures
        2 <= public_of(private) < DH_PRIME,
{
    modular::law_generator_power_nonzero(private);
}

/// Both ends of a transfer derive the same keys: what a receiver makes of the headers of a sender
/// that addressed it is the sender's keys.
pub proof fn law_both_ends_derive_the_same_keys(
    receiver_private: nat,
    sender_private: nat,
    nonce: Seq<u8>,
    session: SessionView,
)
    requires
        session.is_for(sender_private, public_of(receiver_private), nonce),
        nonce.len() == 16,
        public_of(sender_private) != 1,
    ensures
        receiver_keys(receiver_private, session.sender_public, session.nonce) matches Ok(keys)
            && keys == session.keys,
{
    law_public_key_is_acceptable(sender_private);
    encoding::law_public_key_reads_back(public_of(sender_private), session.sender_public);
    modular::law_exchange_commutes(DH_GENERATOR as nat, receiver_private, sender_private);
}

/// The public key header of a key pair is accepted by every sender, unless the public key is 1.
pub proof fn law_own_header_is_accepted(pair: KeyPair)
    requires
        pair.wf(),
        pair.public() != 1,
    ensures
        encoding::public_key_of(encoding::base64_decoded(pair.header())) matches Ok(key) && key
            == pair.public(),
{
    law_public_key_is_acceptable(pair.private());
    encoding::law_public_key_reads_back(pair.public(), pair.header());
}

/// The first byte of a byte sequence is worth the most.
proof fn lemma_first_byte(content: Seq<u8>)
    requires
        content.len() > 0,
    ensures
        bytes::be_value(content) == content[0] * pow(256, (content.len() - 1) as nat)
            + bytes::be_value(content.skip(1)),
    decreases content.len(),
{
    reveal(pow);
    let front = content.drop_last();
    if content.len() == 1 {
        assert(bytes::be_value(front) == 0);
        assert(bytes::be_value(content.skip(1)) == 0);
        assert(pow(256, 0) == 1);
        assert(content[0] * pow(256, 0) == content[0]) by (nonlinear_arith)
            requires
                pow(256, 0) == 1,
        ;
    } else {
        lemma_first_byte(front);
        assert(front[0] == content[0]);
        let width = (content.len() - 2) as nat;
        assert(content.skip(1).drop_last() =~= front.skip(1));
        assert(content.skip(1).last() == content.last());
        assert(pow(256, (content.len() - 1) as nat) == 256 * pow(256, width));
        assert(content[0] * (256 * pow(256, width)) == 256 * (content[0] * pow(256, width)))
            by (nonlinear_arith);
    }
}

/// A private key is made of sixteen random bytes, the most significant first: the remainder by
/// 2^127 of their number is brought into the range from 2 to 2^127 - 3.
pub proof fn law_private_key_is_made_of_the_random_number(random: Seq<u8>)
    requires
        random.len() == 16,
    ensures
        private_of(random) == bytes::be_value(random) % 0x8000_0000_0000_0000_0000_0000_0000_0000
            % 0x7fff_ffff_ffff_ffff_ffff_ffff_ffff_fffc + 2,
{
    let first = random[0];
    let masked = random.update(0, first & 0x7f);
    let rest = random.skip(1);
    let unit = 0x100_0000_0000_0000_0000_0000_0000_0000int;
    assert(pow(256, 15) == unit) by {
        reveal_with_fuel(pow, 16);
    }
    lemma_first_byte(random);
    lemma_first_byte(masked);
    assert(masked.skip(1) =~= rest);
    bytes::law_be_value_write_back(rest);
    assert(first & 0x7f == first % 0x80) by (bit_vector);
    let low = bytes::be_value(rest) as int;
    let small = (first % 0x80) as int;
    let high = (first / 0x80) as int;
    assert(first == high * 0x80 + small);
    assert(bytes::be_value(random) == high * (0x80 * unit) + (small * unit + low))
        by (nonlinear_arith)
        requires
            bytes::be_value(random) == first * unit + low,
            first == high * 0x80 + small,
    ;
    assert(0 <= small * unit + low < 0x80 * unit) by (nonlinear_arith)
        requires
            0 <= small < 0x80,
            0 <= low < unit,
            unit > 0,
    ;
    vstd::arithmetic::div_mod::lemma_fundamental_div_mod_converse(
        bytes::be_value(random) as int,
        0x80 * unit,
        high,
        small * unit + low,
    );
}

/// The public key is the private one's power of 5, and the keys of a transfer are hashes: of their
/// names and the hash of the transfer's name, the shared number and the public keys of the sender and
/// the receiver, in this order, each in sixteen bytes. The nonce is the one that was drawn.
pub proof fn law_keys_are_hashed_from_the_exchange(
    shared: nat,
    sender_public: nat,
    receiver_public: nat,
    nonce: Seq<u8>,
    private: nat,
)
    ensures
        ({
            let keys = derived_keys(shared, sender_public, receiver_public, nonce);
            let hashed = hmac::sha256(
                encode_utf8("file-sharer-transfer-v2"@) + bytes::be_bytes(shared, 16)
                    + bytes::be_bytes(sender_public, 16) + bytes::be_bytes(receiver_public, 16),
            );
            &&& keys.cipher_key == hmac::sha256(encode_utf8("file-sharer-cipher-v2"@) + hashed)
            &&& keys.mac_key == hmac::sha256(encode_utf8("file-sharer-mac-v2"@) + hashed)
            &&& keys.nonce == nonce
        }),
        public_of(private) == modular::power(5, private),
{
}

/// What a sender makes of a private key, the receiver's public key and a nonce: its headers tell its
/// public key and the nonce, and it shares the receiver's public key to the power of the private one.
/// A receiver that is told a public key and a nonce shares that key to the power of its own private
/// one, and says first what is wrong with the key and then what is wrong with the nonce.
pub proof fn law_both_ends_use_their_own_private_key(
    private: nat,
    public: nat,
    nonce: Seq<u8>,
    key_error: Seq<char>,
    nonce_error: Seq<char>,
    other: Result<Seq<u8>, Seq<char>>,
)
    ensures
        ({
            let own = modular::power(5, private);
            let shared = modular::power(public, private);
            let session = session_of(private, public, nonce);
            &&& session.sender_public == encoding::base64_text(bytes::be_bytes(own, 16))
            &&& session.nonce == encoding::base64_text(nonce)
            &&& session.keys == derived_keys(shared, own, public, nonce)
            &&& keys_from(private, Ok(public), Ok(nonce)) == Ok::<TransferKeys, Seq<char>>(
                derived_keys(shared, public, own, nonce),
            )
            &&& keys_from(private, Err(key_error), other) == Err::<TransferKeys, Seq<char>>(
                key_error,
            )
            &&& keys_from(private, Ok(public), Err(nonce_error)) == Err::<TransferKeys, Seq<char>>(
                nonce_error,
            )
        }),
{
}

/// A receiver reads the sender's public key and the nonce from the headers that hold them.
pub proof fn law_receiver_reads_the_headers(
    private: nat,
    key_header: Seq<char>,
    nonce_header: Seq<char>,
)
    ensures
        receiver_keys(private, key_header, nonce_header) == keys_from(
            private,
            encoding::public_key_of(encoding::base64_decoded(key_header)),
            encoding::nonce_of(encoding::base64_decoded(nonce_header)),
        ),
{
}

/// A sound key pair has the public key that belongs to its private one, and a header that holds it.
pub proof fn law_key_pair_belongs_together(pair: KeyPair)
    requires
        pair.wf(),
    ensures
        2 <= pair.private() <= 0x7fff_ffff_ffff_ffff_ffff_ffff_ffff_fffd,
        pair.public() == modular::power(5, pair.private()),
        pair.header() == encoding::base64_text(
            bytes::be_bytes(modular::power(5, pair.private()), 16),
        ),
        pair.header().len() == 24,
{
}

/// What is said of a sender's session is what stands in its fields.
pub proof fn law_session_is_told_as_it_is(session: SenderSession)
    ensures
        session@.sender_public == session.sender_public_header@,
        session@.nonce == session.nonce_header@,
        session@.keys == session.crypto.keys(),
{
}

} // verus!
