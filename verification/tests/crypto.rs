use file_sharer::bytes::{u128_from_be, u128_to_be, u32_from_le, u64_to_be};
use file_sharer::chacha::{chacha20_block, quarter_round, StreamCipher};
use file_sharer::crypto::{derive_transfer_crypto, random_private, KeyPair, TransferCrypto, CRYPTO_MODE};
use file_sharer::encoding::{
    decode_mac, decode_nonce, decode_u128, encode_bytes, encode_u128, mac_from, nonce_from,
    public_key_from,
};
use file_sharer::hmac::{constant_time_eq, HmacSha256};
use file_sharer::modular::{dh_public, dh_shared, mod_add, mod_mul, mod_pow, DH_GENERATOR, DH_PRIME};

fn counting(from: u8) -> [u8; 16] {
    let mut content = [0u8; 16];
    for (index, byte) in content.iter_mut().enumerate() {
        *byte = from.wrapping_add(index as u8);
    }
    content
}

fn hex(content: &[u8]) -> String {
    content.iter().map(|byte| format!("{byte:02x}")).collect()
}

fn pair(from: u8) -> KeyPair {
    KeyPair::generate(Ok(counting(from))).unwrap()
}

#[test]
fn derives_same_transfer_key_on_both_sides() {
    let receiver = KeyPair::generate(Ok(counting(0))).unwrap();
    let sender = KeyPair::generate(Ok(counting(77))).unwrap();
    let sender_session = sender
        .create_sender_session(&receiver.public_header(), Ok(counting(100)), Ok(counting(200)))
        .unwrap();
    let receiver_session = receiver
        .create_receiver_session(
            &sender_session.sender_public_header,
            &sender_session.nonce_header,
        )
        .unwrap();

    let mut encrypted = b"hello encrypted lan".to_vec();
    let mut sender_cipher = sender_session.crypto.stream_cipher();
    sender_cipher.apply(&mut encrypted);

    let mut decrypted = encrypted.clone();
    let mut receiver_cipher = receiver_session.stream_cipher();
    receiver_cipher.apply(&mut decrypted);

    assert_eq!(decrypted, b"hello encrypted lan");
}

#[test]
fn hmac_detects_different_content() {
    let crypto = KeyPair::generate(Ok(counting(1)))
        .unwrap()
        .create_sender_session(
            &KeyPair::generate(Ok(counting(2))).unwrap().public_header(),
            Ok(counting(3)),
            Ok(counting(4)),
        )
        .unwrap()
        .crypto;
    let mut left = crypto.hmac();
    left.update(b"left");
    let mut right = crypto.hmac();
    right.update(b"right");
    assert!(!constant_time_eq(&left.finalize(), &right.finalize()));
}

#[test]
fn session_has_exact_values() {
    let receiver = pair(0);
    assert_eq!(receiver.public_header(), "B+MxyEcFVuew75GE4InWig==");
    let session = pair(9)
        .create_sender_session("B+MxyEcFVuew75GE4InWig==", Ok(counting(100)), Ok(counting(200)))
        .unwrap();
    assert_eq!(session.sender_public_header, "bOogls2hit5L1Mw0aLl6QQ==");
    assert_eq!(session.nonce_header, "yMnKy8zNzs/Q0dLT1NXW1w==");
    let mut data = b"hello encrypted lan".to_vec();
    session.crypto.stream_cipher().apply(&mut data);
    assert_eq!(hex(&data), "dc24041042875a6b8448c7e27bdb2d540df01b");
    let mut code = session.crypto.hmac();
    code.update(b"left");
    assert_eq!(
        encode_bytes(&code.finalize()),
        "UcB/LaDzGjA2cnjLaDPsuAUoxD5uVSY6JmKjw0LItPI="
    );
    assert_eq!(CRYPTO_MODE, "dh-sha256-stream-v1");
}

#[test]
fn session_can_be_made_of_decoded_values() {
    let receiver = pair(0);
    let public = public_key_from(Ok(u128_to_be(dh_public(5)).to_vec()));
    let sent = KeyPair::sender_session(public.clone(), Ok(counting(100)), Ok(counting(200)));
    assert!(sent.is_ok());
    let held = receiver.receiver_session(public, Ok(counting(200))).unwrap();
    let crypto = derive_transfer_crypto(
        dh_shared(dh_public(5), random_private(Ok(counting(0))).unwrap()),
        dh_public(5),
        dh_public(random_private(Ok(counting(0))).unwrap()),
        counting(200),
    );
    let mut left = [0u8; 70];
    let mut right = [0u8; 70];
    held.stream_cipher().apply(&mut left);
    crypto.stream_cipher().apply(&mut right);
    assert_eq!(left, right);
    assert_ne!(left, [0u8; 70]);
}

#[test]
fn first_missing_thing_is_the_error_of_a_session() {
    let keys = pair(3);
    let good = pair(0).public_header();
    let no_private = keys.create_sender_session(
        &good,
        Err("no private".to_string()),
        Err("no nonce".to_string()),
    );
    assert_eq!(no_private.err().unwrap(), "no private");
    let no_nonce =
        keys.create_sender_session(&good, Ok(counting(1)), Err("no nonce".to_string()));
    assert_eq!(no_nonce.err().unwrap(), "no nonce");
    let bad_header = keys.create_sender_session(
        "!!!!",
        Err("no private".to_string()),
        Err("no nonce".to_string()),
    );
    assert_eq!(
        bad_header.err().unwrap(),
        "设备加密公钥无效：Invalid symbol 33, offset 0."
    );
    let bad_nonce = keys.create_receiver_session(&good, "AAAA");
    assert_eq!(bad_nonce.err().unwrap(), "加密 nonce 长度无效");
    let bad_both = keys.create_receiver_session("AAAA", "AAAA");
    assert_eq!(bad_both.err().unwrap(), "设备加密公钥长度无效");
    assert_eq!(
        KeyPair::generate(Err("no random".to_string())).err().unwrap(),
        "no random"
    );
}

#[test]
fn private_keys_stay_in_range() {
    assert_eq!(
        random_private(Ok(counting(0))).unwrap(),
        5233100606242806050955395731361297
    );
    assert_eq!(
        random_private(Ok(counting(100))).unwrap(),
        133449298559797797105413546545444385397
    );
    assert_eq!(random_private(Ok([0xff; 16])).unwrap(), 5);
    assert_eq!(random_private(Ok([0; 16])).unwrap(), 2);
}

#[test]
fn public_key_one_is_the_one_that_is_refused() {
    let private: u128 = 2330701143294099064817634297477864462;
    assert_eq!(dh_public(private), 1);
    let bytes = [1, 192, 224, 112, 56, 28, 14, 7, 3, 129, 192, 224, 112, 56, 28, 12];
    assert_eq!(random_private(Ok(bytes)).unwrap(), private);
    let session = pair(0)
        .create_sender_session(&pair(1).public_header(), Ok(bytes), Ok(counting(5)))
        .unwrap();
    assert_eq!(session.sender_public_header, "AAAAAAAAAAAAAAAAAAAAAQ==");
    let refused = pair(1)
        .create_receiver_session(&session.sender_public_header, &session.nonce_header)
        .err()
        .unwrap();
    assert_eq!(refused, "设备加密公钥范围无效");
}

#[test]
fn headers_are_read_in_their_ranges() {
    assert_eq!(decode_u128("AAAAAAAAAAAAAAAAAAAAAg==").unwrap(), 2);
    assert_eq!(
        decode_u128("f////////////////////g==").unwrap(),
        DH_PRIME - 1
    );
    for header in ["AAAAAAAAAAAAAAAAAAAAAA==", "AAAAAAAAAAAAAAAAAAAAAQ==", "f////////////////////w=="] {
        assert_eq!(decode_u128(header).unwrap_err(), "设备加密公钥范围无效");
    }
    assert_eq!(encode_u128(2), "AAAAAAAAAAAAAAAAAAAAAg==");
    assert_eq!(
        decode_nonce("yMnKy8zNzs/Q0dLT1NXW1w==").unwrap(),
        counting(200)
    );
    assert_eq!(
        decode_nonce("%").unwrap_err(),
        "加密 nonce 无效：Invalid symbol 37, offset 0."
    );
    let code = [7u8; 32];
    assert_eq!(decode_mac(&encode_bytes(&code)).unwrap(), code);
    assert_eq!(decode_mac("AAAA").unwrap_err(), "加密校验值长度无效");
    assert_eq!(
        decode_mac("*").unwrap_err(),
        "加密校验值无效：Invalid symbol 42, offset 0."
    );
    assert_eq!(encode_bytes(b""), "");
    assert_eq!(encode_bytes(b"f"), "Zg==");
    assert_eq!(encode_bytes(b"foobar"), "Zm9vYmFy");
}

#[test]
fn decoded_headers_are_judged_without_base64() {
    assert_eq!(
        public_key_from(Err("oops".to_string())).unwrap_err(),
        "设备加密公钥无效：oops"
    );
    assert_eq!(public_key_from(Ok(vec![9; 15])).unwrap_err(), "设备加密公钥长度无效");
    assert_eq!(public_key_from(Ok(vec![0xff; 16])).unwrap_err(), "设备加密公钥范围无效");
    assert_eq!(
        public_key_from(Ok(u128_to_be(12345).to_vec())).unwrap(),
        12345
    );
    assert_eq!(nonce_from(Err("oops".to_string())).unwrap_err(), "加密 nonce 无效：oops");
    assert_eq!(nonce_from(Ok(vec![1; 17])).unwrap_err(), "加密 nonce 长度无效");
    assert_eq!(nonce_from(Ok(counting(4).to_vec())).unwrap(), counting(4));
    assert_eq!(mac_from(Err("oops".to_string())).unwrap_err(), "加密校验值无效：oops");
    assert_eq!(mac_from(Ok(vec![1; 31])).unwrap_err(), "加密校验值长度无效");
    assert_eq!(mac_from(Ok(vec![3; 32])).unwrap(), [3; 32]);
}

#[test]
fn block_matches_the_published_vector() {
    let mut key = [0u8; 32];
    for (index, byte) in key.iter_mut().enumerate() {
        *byte = index as u8;
    }
    let nonce = [0, 0, 0, 9, 0, 0, 0, 0x4a, 0, 0, 0, 0, 0xff, 0xff, 0xff, 0xff];
    assert_eq!(
        hex(&chacha20_block(&key, 1, &nonce)),
        "10f1e7e4d13b5915500fdd1fa32071c4c7d1f4c733c068030422aa9ac3d46c4e\
         d2826446079faa0914c2d705d98b02a2b5129cd1de164eb9cbd083e8a2503c4e"
    );
}

#[test]
fn quarter_round_takes_any_words() {
    let mut state = [0u32; 16];
    state[0] = 0x1111_1111;
    state[1] = 0x0102_0304;
    state[2] = 0x9b8d_6f43;
    state[3] = 0x0123_4567;
    quarter_round(&mut state, 0, 1, 2, 3);
    assert_eq!(state[..4], [0xea2a_92f4, 0xcb1c_f8ce, 0x4581_472e, 0x5881_c4bb]);
    let mut same = [0u32; 16];
    same[7] = 3;
    quarter_round(&mut same, 7, 7, 7, 7);
    let mut expected = 3u32;
    for count in [16, 12, 8, 7] {
        expected = expected.wrapping_add(expected);
        expected = (expected ^ expected).rotate_left(count);
    }
    assert_eq!(same[7], expected);
    let mut shared = [1u32, 2, 3, 4, 0, 0, 0, 0, 0, 0, 0, 0, 0, 0, 0, 0];
    quarter_round(&mut shared, 0, 1, 0, 2);
    let mut by_hand = [1u32, 2, 3];
    for (to, from, over, count) in [(0, 1, 2, 16), (0, 2, 1, 12), (0, 1, 2, 8), (0, 2, 1, 7)] {
        by_hand[to] = u32::wrapping_add(by_hand[to], by_hand[from]);
        by_hand[over] = (by_hand[over] ^ by_hand[to]).rotate_left(count);
    }
    assert_eq!(shared[..3], by_hand);
}

#[test]
fn cipher_starts_with_block_zero_and_goes_on() {
    let key = [5u8; 32];
    let nonce = counting(40);
    let mut stream = vec![0u8; 150];
    StreamCipher::new(key, nonce).apply(&mut stream);
    assert_eq!(stream[..64], chacha20_block(&key, 0, &nonce));
    assert_eq!(stream[64..128], chacha20_block(&key, 1, &nonce));
    assert_eq!(stream[128..], chacha20_block(&key, 2, &nonce)[..22]);
}

#[test]
fn pieces_make_the_whole() {
    let crypto = TransferCrypto::from_keys([1; 32], [2; 32], counting(3));
    let plain: Vec<u8> = (0..300).map(|number| (number % 251) as u8).collect();
    let mut whole = plain.clone();
    crypto.stream_cipher().apply(&mut whole);
    let mut pieces = plain.clone();
    let mut cipher = crypto.stream_cipher();
    let mut at = 0;
    for size in [1usize, 63, 64, 65, 0, 100, 7] {
        cipher.apply(&mut pieces[at..at + size]);
        at += size;
    }
    assert_eq!(at, 300);
    assert_eq!(pieces, whole);
    let mut back = whole.clone();
    crypto.stream_cipher().apply(&mut back);
    assert_eq!(back, plain);
}

#[test]
fn hmac_matches_the_published_vectors() {
    let mut short = HmacSha256::new(b"Jefe");
    short.update(b"what do ya want ");
    short.update(b"for nothing?");
    assert_eq!(
        hex(&short.finalize()),
        "5bdcc146bf60754e6a042426089575c75a003f089d2739839dec58b964ec3843"
    );
    let mut long = HmacSha256::new(&[0xaa; 131]);
    long.update(b"Test Using Larger Than Block-Size Key - Hash Key First");
    assert_eq!(
        hex(&long.finalize()),
        "60e431591ee0b67f0d8a26aacbf5b77f8e0bc6213728c5140546040f0ee37f54"
    );
}

#[test]
fn equality_looks_at_lengths_and_bytes() {
    assert!(constant_time_eq(b"", b""));
    assert!(constant_time_eq(b"same", b"same"));
    assert!(!constant_time_eq(b"same", b"sane"));
    assert!(!constant_time_eq(b"same", b"sam"));
}

#[test]
fn arithmetic_is_modulo_the_prime() {
    assert_eq!(DH_PRIME, (1u128 << 127) - 1);
    assert_eq!(DH_GENERATOR, 5);
    assert_eq!(mod_add(DH_PRIME - 1, DH_PRIME - 1), DH_PRIME - 2);
    assert_eq!(mod_add(1, 2), 3);
    assert_eq!(mod_mul(DH_PRIME - 2, DH_PRIME - 3), 6);
    assert_eq!(mod_mul(0, DH_PRIME - 1), 0);
    assert_eq!(mod_pow(2, 127), 1);
    assert_eq!(mod_pow(7, 0), 1);
    assert_eq!(mod_pow(3, DH_PRIME - 1), 1);
    assert_eq!(dh_public(3), 125);
    let (a, b) = (123456789u128, 987654321u128);
    assert_eq!(dh_shared(dh_public(a), b), dh_shared(dh_public(b), a));
}

#[test]
fn numbers_are_read_back_from_their_bytes() {
    let bytes = u128_to_be(0x0102_0304_0506_0708_090a_0b0c_0d0e_0f10);
    assert_eq!(bytes, counting(1));
    assert_eq!(u128_from_be(&bytes), 0x0102_0304_0506_0708_090a_0b0c_0d0e_0f10);
    assert_eq!(u64_to_be(258), [0, 0, 0, 0, 0, 0, 1, 2]);
    assert_eq!(u32_from_le(&[9, 1, 2, 3, 4], 1), 0x0403_0201);
}

#[test]
fn headers_have_one_spelling() {
    let code: [u8; 32] = std::array::from_fn(|index| index as u8 * 7);
    let text = encode_bytes(&code);
    assert_eq!(text.len(), 44);
    assert_eq!(encode_u128(2).len(), 24);
    assert_eq!(encode_u128(u128::MAX).len(), 24);
    let keys = KeyPair::generate(Ok([0; 16])).unwrap();
    assert_eq!(keys.public_header().len(), 24);
    assert_eq!(decode_mac(&text).unwrap(), code);

    // Without padding, with blanks, or with bits behind the last byte it is not base64.
    let bare = text.trim_end_matches('=');
    let last = text.as_bytes()[42] as char;
    assert_eq!(last, 'k');
    let trailing = format!("{}l=", &text[..42]);
    for other in [bare.to_string(), format!("{text} "), format!("{text}="), trailing] {
        let error = decode_mac(&other).unwrap_err();
        assert!(error.starts_with("加密校验值无效："), "{error}");
    }
    for count in [0usize, 1, 31, 33, 64] {
        let other = encode_bytes(&vec![9u8; count]);
        assert_eq!(other.len(), count.div_ceil(3) * 4);
        assert_eq!(decode_mac(&other).unwrap_err(), "加密校验值长度无效");
    }

    assert!(decode_u128("AAAAAAAAAAAAAAAAAAAAAh==").is_err());
    assert!(decode_u128("AAAAAAAAAAAAAAAAAAAAAg").is_err());
    assert!(decode_nonce("yMnKy8zNzs/Q0dLT1NXW1x==").is_err());
}
