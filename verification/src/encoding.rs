//! Base64, as the `base64` crate writes and reads it, and what the headers of the protocol hold
//! in it.

use crate::bytes;
use crate::modular::DH_PRIME;
use crate::text;
use base64::engine::general_purpose::STANDARD;
use base64::Engine;
use vstd::prelude::*;

verus! {

/// The text that stands for a byte string in padded base64 with the standard alphabet.
pub uninterp spec fn base64_text(bytes: Seq<u8>) -> Seq<char>;

/// The byte string that a base64 text stands for, or what is wrong with the text.
pub uninterp spec fn base64_decoded(text: Seq<char>) -> Result<Seq<u8>, Seq<char>>;

/// Whether a character can stand in a base64 text: the standard alphabet and the padding.
pub open spec fn is_base64_char(c: char) -> bool {
    ||| 'A' <= c <= 'Z'
    ||| 'a' <= c <= 'z'
    ||| '0' <= c <= '9'
    ||| c == '+'
    ||| c == '/'
    ||| c == '='
}

/// Whether a text is made of such characters.
pub open spec fn is_base64(text: Seq<char>) -> bool {
    forall|index: int| 0 <= index < text.len() ==> is_base64_char(#[trigger] text[index])
}

/// Whether a text is read as a byte string.
pub open spec fn decodes_to(text: Seq<char>, bytes: Seq<u8>) -> bool {
    base64_decoded(text) matches Ok(back) && back == bytes
}

/// The number of characters that stand for so many bytes: four for every three begun.
pub open spec fn base64_length(count: nat) -> nat {
    (count + 2) / 3 * 4
}

/// Whether a text is read as a byte string exactly if it is the text that stands for it.
pub open spec fn decodes_exactly(text: Seq<char>, decoded: Result<Seq<u8>, Seq<char>>) -> bool {
    forall|bytes: Seq<u8>|
        #![trigger base64_text(bytes)]
        text == base64_text(bytes) <==> (decoded matches Ok(found) && found == bytes)
}

/// A result of decoding, by its views.
pub open spec fn decoded_view(decoded: Result<Vec<u8>, String>) -> Result<Seq<u8>, Seq<char>> {
    match decoded {
        Ok(bytes) => Ok(bytes@),
        Err(error) => Err(error@),
    }
}

/// A public key that was read, or the error, by its views.
pub open spec fn key_view(key: Result<u128, String>) -> Result<nat, Seq<char>> {
    match key {
        Ok(number) => Ok(number as nat),
        Err(error) => Err(error@),
    }
}

/// A nonce that was read, or the error, by its views.
pub open spec fn nonce_view(nonce: Result<[u8; 16], String>) -> Result<Seq<u8>, Seq<char>> {
    match nonce {
        Ok(content) => Ok(content@),
        Err(error) => Err(error@),
    }
}

/// An authentication code that was read, or the error, by its views.
pub open spec fn mac_view(mac: Result<[u8; 32], String>) -> Result<Seq<u8>, Seq<char>> {
    match mac {
        Ok(content) => Ok(content@),
        Err(error) => Err(error@),
    }
}

/// `base64::Engine::encode` of `base64::engine::general_purpose::STANDARD`: the padded text of a
/// byte string. It is made of the standard alphabet and the padding, has four characters for every
/// three bytes begun, and the same engine decodes it to the byte string. It has to fit into a
/// `String`.
#[verifier::external_body]
fn base64_encode(bytes: &[u8]) -> (text: String)
    requires
        base64_length(bytes@.len()) <= isize::MAX,
    ensures
        text@ == base64_text(bytes@),
        text@.len() == base64_length(bytes@.len()),
        is_base64(text@),
        decodes_to(text@, bytes@),
{
    STANDARD.encode(bytes)
}

/// `base64::Engine::decode` of `base64::engine::general_purpose::STANDARD`: the byte string of a
/// text, or the error as `base64::DecodeError` displays itself. Both depend on the text alone. The
/// engine asks for canonical padding and for trailing bits of zero, so that of all texts only the
/// one that stands for a byte string is decoded to it, and that one is.
#[verifier::external_body]
fn base64_decode(text: &str) -> (decoded: Result<Vec<u8>, String>)
    ensures
        decoded_view(decoded) == base64_decoded(text@),
        decodes_exactly(text@, decoded_view(decoded)),
{
    STANDARD.decode(text).map_err(|error| error.to_string())
}

/// The padded base64 text of a byte string.
pub fn encode_bytes(bytes: &[u8]) -> (text: String)
    requires
        base64_length(bytes@.len()) <= isize::MAX,
    ensures
        text@ == base64_text(bytes@),
        text@.len() == base64_length(bytes@.len()),
        is_base64(text@),
        decodes_to(text@, bytes@),
{
    base64_encode(bytes)
}

/// What a public key header comes to once its base64 has been read: a number from 2 up to, but
/// not including, the prime, in sixteen bytes.
pub open spec fn public_key_of(decoded: Result<Seq<u8>, Seq<char>>) -> Result<nat, Seq<char>> {
    match decoded {
        Err(error) => Err("设备加密公钥无效："@ + error),
        Ok(content) => if content.len() != 16 {
            Err("设备加密公钥长度无效"@)
        } else if !(2 <= bytes::be_value(content) < DH_PRIME) {
            Err("设备加密公钥范围无效"@)
        } else {
            Ok(bytes::be_value(content))
        },
    }
}

/// What a nonce header comes to once its base64 has been read: sixteen bytes.
pub open spec fn nonce_of(decoded: Result<Seq<u8>, Seq<char>>) -> Result<Seq<u8>, Seq<char>> {
    match decoded {
        Err(error) => Err("加密 nonce 无效："@ + error),
        Ok(content) => if content.len() != 16 {
            Err("加密 nonce 长度无效"@)
        } else {
            Ok(content)
        },
    }
}

/// What an authentication code header comes to once its base64 has been read: 32 bytes.
pub open spec fn mac_of(decoded: Result<Seq<u8>, Seq<char>>) -> Result<Seq<u8>, Seq<char>> {
    match decoded {
        Err(error) => Err("加密校验值无效："@ + error),
        Ok(content) => if content.len() != 32 {
            Err("加密校验值长度无效"@)
        } else {
            Ok(content)
        },
    }
}

/// The sixteen bytes of a vector that has as many.
fn sixteen(content: &Vec<u8>) -> (array: [u8; 16])
    requires
        content@.len() == 16,
    ensures
        array@ == content@,
{
    let mut array: [u8; 16] = [0; 16];
    let mut index: usize = 0;
    while index < 16
        invariant
            index <= 16,
            content@.len() == 16,
            forall|at: int| 0 <= at < index ==> array@[at] == content@[at],
        decreases 16 - index,
    {
        array[index] = content[index];
        index = index + 1;
    }
    assert(array@ =~= content@);
    array
}

/// The public key in a decoded public key header.
pub fn public_key_from(decoded: Result<Vec<u8>, String>) -> (key: Result<u128, String>)
    ensures
        key_view(key) == public_key_of(decoded_view(decoded)),
{
    match decoded {
        Err(error) => Err(text::concat("设备加密公钥无效：", error.as_str())),
        Ok(content) => {
            if content.len() != 16 {
                return Err("设备加密公钥长度无效".to_string());
            }
            let number: u128 = bytes::u128_from_be(&sixteen(&content));
            if number < 2 || number >= DH_PRIME {
                return Err("设备加密公钥范围无效".to_string());
            }
            Ok(number)
        },
    }
}

/// The nonce in a decoded nonce header.
pub fn nonce_from(decoded: Result<Vec<u8>, String>) -> (nonce: Result<[u8; 16], String>)
    ensures
        nonce_view(nonce) == nonce_of(decoded_view(decoded)),
{
    match decoded {
        Err(error) => Err(text::concat("加密 nonce 无效：", error.as_str())),
        Ok(content) => {
            if content.len() != 16 {
                return Err("加密 nonce 长度无效".to_string());
            }
            Ok(sixteen(&content))
        },
    }
}

/// The authentication code in a decoded authentication code header.
pub fn mac_from(decoded: Result<Vec<u8>, String>) -> (mac: Result<[u8; 32], String>)
    ensures
        mac_view(mac) == mac_of(decoded_view(decoded)),
{
    match decoded {
        Err(error) => Err(text::concat("加密校验值无效：", error.as_str())),
        Ok(content) => {
            if content.len() != 32 {
                return Err("加密校验值长度无效".to_string());
            }
            let mut array: [u8; 32] = [0; 32];
            let mut index: usize = 0;
            while index < 32
                invariant
                    index <= 32,
                    content@.len() == 32,
                    forall|at: int| 0 <= at < index ==> array@[at] == content@[at],
                decreases 32 - index,
            {
                array[index] = content[index];
                index = index + 1;
            }
            assert(array@ =~= content@);
            Ok(array)
        },
    }
}

/// Whether a header is read as a public key exactly if it is the key's header and the key is in
/// range.
pub open spec fn holds_key_exactly(text: Seq<char>, key: Result<nat, Seq<char>>) -> bool {
    forall|number: nat|
        #![trigger bytes::be_bytes(number, 16)]
        2 <= number < DH_PRIME && text == base64_text(bytes::be_bytes(number, 16)) <==> (key matches
            Ok(found) && found == number)
}

/// Whether a header is read as bytes of a width exactly if it is the header of these bytes.
pub open spec fn holds_bytes_exactly(
    text: Seq<char>,
    read: Result<Seq<u8>, Seq<char>>,
    width: nat,
) -> bool {
    forall|content: Seq<u8>|
        #![trigger base64_text(content)]
        content.len() == width && text == base64_text(content) <==> (read matches Ok(found) && found
            == content)
}

/// The public key that a header holds. Only the header of a key is read as the key.
pub fn decode_u128(text: &str) -> (key: Result<u128, String>)
    ensures
        key_view(key) == public_key_of(base64_decoded(text@)),
        holds_key_exactly(text@, key_view(key)),
{
    let decoded = base64_decode(text);
    let ghost found = decoded_view(decoded);
    let key = public_key_from(decoded);
    proof {
        bytes::lemma_u128_width();
        assert forall|number: nat|
            #![trigger bytes::be_bytes(number, 16)]
            2 <= number < DH_PRIME && text@ == base64_text(bytes::be_bytes(number, 16)) <==> (
            key_view(key) matches Ok(read) && read == number) by {
            let content = bytes::be_bytes(number, 16);
            if 2 <= number < DH_PRIME {
                bytes::law_be_bytes_read_back(number, 16);
                assert(text@ == base64_text(content) <==> (found matches Ok(back) && back
                    == content));
            }
            if let Ok(read) = key_view(key) {
                let back = found->Ok_0;
                bytes::law_be_value_write_back(back);
                assert(text@ == base64_text(back));
            }
        }
    }
    key
}

/// The nonce that a header holds. Only the header of a nonce is read as the nonce.
pub fn decode_nonce(text: &str) -> (nonce: Result<[u8; 16], String>)
    ensures
        nonce_view(nonce) == nonce_of(base64_decoded(text@)),
        holds_bytes_exactly(text@, nonce_view(nonce), 16),
{
    nonce_from(base64_decode(text))
}

/// Whether a text that stands for bytes of another length than a code's is of the wrong length,
/// and one that stands for no bytes is invalid.
pub open spec fn refuses_exactly(text: Seq<char>, read: Result<Seq<u8>, Seq<char>>) -> bool {
    &&& forall|content: Seq<u8>|
        #![trigger base64_text(content)]
        content.len() != 32 && text == base64_text(content) ==> (read matches Err(error) && error
            == "加密校验值长度无效"@)
    &&& (forall|content: Seq<u8>| text != #[trigger] base64_text(content)) ==> (read matches Err(
        error,
    ) && "加密校验值无效："@.is_prefix_of(error))
}

/// The authentication code that a header holds. Only the header of a code is read as the code.
pub fn decode_mac(text: &str) -> (mac: Result<[u8; 32], String>)
    ensures
        mac_view(mac) == mac_of(base64_decoded(text@)),
        holds_bytes_exactly(text@, mac_view(mac), 32),
        refuses_exactly(text@, mac_view(mac)),
{
    let decoded = base64_decode(text);
    proof {
        match decoded_view(decoded) {
            Ok(content) => {
                assert(text@ == base64_text(content));
            },
            Err(error) => {
                let start = "加密校验值无效："@;
                assert((start + error).subrange(0, start.len() as int) =~= start);
            },
        }
    }
    mac_from(decoded)
}

/// The header text of a public key.
pub fn encode_u128(value: u128) -> (text: String)
    ensures
        text@ == base64_text(bytes::be_bytes(value as nat, 16)),
        text@.len() == 24,
        is_base64(text@),
        decodes_to(text@, bytes::be_bytes(value as nat, 16)),
{
    encode_bytes(&bytes::u128_to_be(value))
}

/// A public key that is in range is read back from its header.
pub proof fn law_public_key_reads_back(key: nat, text: Seq<char>)
    requires
        2 <= key < DH_PRIME,
        decodes_to(text, bytes::be_bytes(key, 16)),
    ensures
        public_key_of(base64_decoded(text)) matches Ok(back) && back == key,
{
    bytes::lemma_u128_width();
    bytes::law_be_bytes_read_back(key, 16);
}

/// A public key header holds a number from 2 up to, but not including, 2^127 - 1 in sixteen bytes,
/// the most significant first; a nonce header holds sixteen bytes, and a code header 32. Anything
/// else is refused, with what is wrong.
pub proof fn law_headers_hold_what_they_should(content: Seq<u8>, error: Seq<char>)
    ensures
        ({
            let value = bytes::be_value(content);
            let fits = content.len() == 16 && 2 <= value < 0x7fff_ffff_ffff_ffff_ffff_ffff_ffff_ffff;
            &&& fits ==> public_key_of(Ok(content)) == Ok::<nat, Seq<char>>(value)
            &&& content.len() != 16 ==> public_key_of(Ok(content)) == Err::<nat, Seq<char>>(
                "设备加密公钥长度无效"@,
            )
            &&& content.len() == 16 && !fits ==> public_key_of(Ok(content)) == Err::<
                nat,
                Seq<char>,
            >("设备加密公钥范围无效"@)
            &&& public_key_of(Err(error)) == Err::<nat, Seq<char>>("设备加密公钥无效："@ + error)
        }),
        content.len() == 16 ==> nonce_of(Ok(content)) == Ok::<Seq<u8>, Seq<char>>(content),
        content.len() != 16 ==> nonce_of(Ok(content)) == Err::<Seq<u8>, Seq<char>>(
            "加密 nonce 长度无效"@,
        ),
        nonce_of(Err(error)) == Err::<Seq<u8>, Seq<char>>("加密 nonce 无效："@ + error),
        content.len() == 32 ==> mac_of(Ok(content)) == Ok::<Seq<u8>, Seq<char>>(content),
        content.len() != 32 ==> mac_of(Ok(content)) == Err::<Seq<u8>, Seq<char>>(
            "加密校验值长度无效"@,
        ),
        mac_of(Err(error)) == Err::<Seq<u8>, Seq<char>>("加密校验值无效："@ + error),
{
}

/// Base64 is written in letters, digits and three signs, four for every three bytes or part of them.
pub proof fn law_base64_is_written_in_plain_characters(c: char, count: nat)
    ensures
        is_base64_char(c) <==> {
            ||| 'a' <= c <= 'z'
            ||| 'A' <= c <= 'Z'
            ||| '0' <= c <= '9'
            ||| c == '+'
            ||| c == '/'
            ||| c == '='
        },
        4 * count <= 3 * base64_length(count) < 4 * count + 12,
        base64_length(count) % 4 == 0,
{
}

} // verus!
