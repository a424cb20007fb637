use teamech::codec::{decrypt, encrypt, encrypt_with_nonce, keygen};
use teamech::wire::{bytes2hex, bytes_i64, bytes_u64, i64_bytes, u64_bytes};

fn make_pad(len: usize) -> Vec<u8> {
    let mut pad: Vec<u8> = Vec::new();
    for i in 0..len {
        pad.push((i % 256) as u8);
    }
    pad
}

#[test]
fn round_trip_recovers_message() {
    let pad = make_pad(4096);
    let message: Vec<u8> = b"hello appliance cluster".to_vec();
    let payload = encrypt(&message, &pad);
    assert_eq!(payload.len(), message.len() + 16);
    let (valid, plain) = decrypt(&payload, &pad);
    assert!(valid);
    assert_eq!(plain, message);
}

#[test]
fn round_trip_one_byte_pad() {
    let pad = vec![0x5a];
    let message: Vec<u8> = b"x".to_vec();
    let payload = encrypt(&message, &pad);
    let (valid, plain) = decrypt(&payload, &pad);
    assert!(valid);
    assert_eq!(plain, message);
}

#[test]
fn round_trip_fixed_nonce() {
    let pad = make_pad(4096);
    let message: Vec<u8> = b"ping".to_vec();
    let nonce: Vec<u8> = vec![1, 2, 3, 4, 5, 6, 7, 8];
    let payload = encrypt_with_nonce(&message, &pad, &nonce);
    assert_eq!(&payload[payload.len() - 8..], &nonce[..]);
    let (valid, plain) = decrypt(&payload, &pad);
    assert!(valid);
    assert_eq!(plain, message);
}

#[test]
fn different_pads_do_not_validate() {
    let pad_a = make_pad(4096);
    let mut pad_b: Vec<u8> = Vec::new();
    for i in 0..4096 {
        pad_b.push((255 - i % 256) as u8);
    }
    let message: Vec<u8> = b"secret".to_vec();
    let payload = encrypt(&message, &pad_a);
    let (valid, _) = decrypt(&payload, &pad_b);
    assert!(!valid);
}

#[test]
fn flipped_bits_do_not_validate() {
    let pad = make_pad(4096);
    let message: Vec<u8> = b"integrity matters".to_vec();
    let payload = encrypt(&message, &pad);
    // Flip one bit in the first body byte, a middle byte, and a signature
    // byte in turn; every tampering must break the signature.
    let positions = [0, message.len() / 2, message.len() + 3];
    for &pos in positions.iter() {
        let mut tampered = payload.clone();
        tampered[pos] ^= 0x01;
        let (valid, _) = decrypt(&tampered, &pad);
        assert!(!valid);
    }
}

#[test]
fn successive_nonces_differ() {
    let pad = make_pad(4096);
    let message: Vec<u8> = b"same body".to_vec();
    let first = encrypt(&message, &pad);
    let second = encrypt(&message, &pad);
    assert_ne!(first[first.len() - 8..], second[second.len() - 8..]);
}

#[test]
fn keygen_is_deterministic_and_sized() {
    let pad = make_pad(4096);
    let nonce: Vec<u8> = vec![9, 8, 7, 6, 5, 4, 3, 2];
    let (key_a, seed_a) = keygen(&nonce, &pad, 12);
    let (key_b, seed_b) = keygen(&nonce, &pad, 12);
    assert_eq!(key_a.len(), 12);
    assert_eq!(seed_a.len(), 8);
    assert_eq!(key_a, key_b);
    assert_eq!(seed_a, seed_b);
}

#[test]
fn u64_little_endian_bytes() {
    let bytes = u64_bytes(0x0807060504030201);
    assert_eq!(bytes, vec![1, 2, 3, 4, 5, 6, 7, 8]);
    assert_eq!(bytes_u64(&bytes), 0x0807060504030201);
}

#[test]
fn i64_little_endian_bytes() {
    let bytes = i64_bytes(-1);
    assert_eq!(bytes, vec![0xff; 8]);
    assert_eq!(bytes_i64(&bytes), -1);
    let stamp: i64 = 1_537_000_000_123;
    assert_eq!(bytes_i64(&i64_bytes(stamp)), stamp);
    let negative: i64 = -9_000_000_000_000;
    assert_eq!(bytes_i64(&i64_bytes(negative)), negative);
    assert_eq!(bytes_i64(&i64_bytes(i64::MIN)), i64::MIN);
    assert_eq!(bytes_i64(&i64_bytes(i64::MAX)), i64::MAX);
}

#[test]
fn hex_rendering() {
    assert_eq!(bytes2hex(&vec![]), Vec::<u8>::new());
    assert_eq!(bytes2hex(&vec![0x00]), b"00".to_vec());
    assert_eq!(bytes2hex(&vec![0x0f, 0xa5, 0x00]), b"0f a5 00".to_vec());
    assert_eq!(bytes2hex(&vec![0xff, 0x10]), b"ff 10".to_vec());
}
