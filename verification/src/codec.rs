//! The pad-indexed authenticated-encryption codec.
//!
//! A payload on the wire is `ciphertext ++ nonce8`, where
//! `ciphertext = (message ++ signature) XOR keystream`.  The keystream and an
//! eight-byte secret seed are drawn from a shared pad by two hash chains
//! seeded by the nonce, and the signature is the first eight bytes of the
//! digest of `seed ++ message ++ keystream`.  Decryption never rejects a
//! well-sized payload: it always returns a plaintext together with a flag
//! that says whether the signature matched.
//!
//! The chains index the pad by first truncating each digest to eight bytes
//! and only then reducing modulo the pad length; reducing the whole digest
//! instead yields different indices and is incompatible with peers.

use vstd::prelude::*;
use vstd::bytes::spec_u64_from_le_bytes;
use crate::wire::{bytes_u64, clone_bytes, push_all, subvec, bytes_eq, u64_bytes};

verus! {

/// The 32-byte SHA3-256 digest of `input`, named but not defined here.
pub uninterp spec fn sha3_256_of(input: Seq<u8>) -> Seq<u8>;

/// Relies on tiny_keccak::sha3_256: the SHA3-256 digest, 32 bytes, a
/// function of the input bytes alone.
#[verifier::external_body]
fn sha3_256(input: &Vec<u8>) -> (digest: Vec<u8>)
    ensures
        digest@ == sha3_256_of(input@),
        digest@.len() == 32,
{
    tiny_keccak::sha3_256(input.as_slice()).to_vec()
}

/// Relies on rand::random to draw a 64-bit nonce from a cryptographic
/// source; nothing is promised of the value.
#[verifier::external_body]
pub(crate) fn random_u64() -> u64 {
    rand::random::<u64>()
}

/// The first eight bytes of `s` (zero-padded if `s` is shorter).
pub open spec fn first8(s: Seq<u8>) -> Seq<u8> {
    Seq::new(8, |i: int| if i < s.len() { s[i] } else { 0u8 })
}

/// A fresh vector holding the first eight bytes of `d`.
fn take8(d: Vec<u8>) -> (r: Vec<u8>)
    requires
        d@.len() >= 8,
    ensures
        r@ == first8(d@),
{
    let mut r = d;
    let ghost orig = r@;
    r.truncate(8);
    proof {
        assert(r@ =~= first8(orig));
    }
    r
}

/// The pad byte selected by an eight-byte chain nonce: the nonce is read as
/// a little-endian integer and reduced modulo the pad length.
pub open spec fn pad_index(pad: Seq<u8>, nonce8: Seq<u8>) -> u8
    recommends
        pad.len() >= 1,
        nonce8.len() == 8,
{
    pad[spec_u64_from_le_bytes(nonce8) as int % pad.len() as int]
}

/// State of the seed chain after `x` rounds: the running chain nonce and the
/// seed bytes drawn so far.  Each round hashes the payload nonce, the chain
/// nonce, and the previous seed byte if one exists; the digest (truncated to
/// eight bytes) becomes the next chain nonce and selects one pad byte.
pub open spec fn seed_chain(nonce: Seq<u8>, pad: Seq<u8>, x: nat) -> (Seq<u8>, Seq<u8>)
    decreases x,
{
    if x == 0 {
        (nonce, Seq::empty())
    } else {
        let prev = seed_chain(nonce, pad, (x - 1) as nat);
        let tail = if prev.1.len() >= 1 {
            seq![prev.1.last()]
        } else {
            Seq::<u8>::empty()
        };
        let nsn = first8(sha3_256_of(nonce + prev.0 + tail));
        (nsn, prev.1.push(pad_index(pad, nsn)))
    }
}

/// The eight-byte secret seed derived from a payload nonce and the pad.
pub open spec fn spec_seed(nonce: Seq<u8>, pad: Seq<u8>) -> Seq<u8> {
    seed_chain(nonce, pad, 8).1
}

/// State of the key chain after `x` rounds, seeded by the secret seed: the
/// running chain nonce and the keystream bytes drawn so far.
pub open spec fn key_chain(seed: Seq<u8>, pad: Seq<u8>, x: nat) -> (Seq<u8>, Seq<u8>)
    decreases x,
{
    if x == 0 {
        (seed, Seq::empty())
    } else {
        let prev = key_chain(seed, pad, (x - 1) as nat);
        let tail = if prev.1.len() >= 1 {
            seq![prev.1.last()]
        } else {
            Seq::<u8>::empty()
        };
        let nkn = first8(sha3_256_of(seed + prev.0 + tail));
        (nkn, prev.1.push(pad_index(pad, nkn)))
    }
}

/// The keystream of `keysize` bytes for a payload nonce and the pad.
pub open spec fn spec_key(nonce: Seq<u8>, pad: Seq<u8>, keysize: nat) -> Seq<u8> {
    key_chain(spec_seed(nonce, pad), pad, keysize).1
}

/// Byte-wise XOR of `a` against the leading bytes of `b`.
pub open spec fn xor_bytes(a: Seq<u8>, b: Seq<u8>) -> Seq<u8>
    recommends
        a.len() <= b.len(),
{
    Seq::new(a.len(), |i: int| a[i] ^ b[i])
}

/// The seed chain yields one byte per round.
pub proof fn lemma_seed_chain_len(nonce: Seq<u8>, pad: Seq<u8>, x: nat)
    ensures
        seed_chain(nonce, pad, x).1.len() == x,
    decreases x,
{
    if x > 0 {
        lemma_seed_chain_len(nonce, pad, (x - 1) as nat);
    }
}

/// The key chain yields one byte per round.
pub proof fn lemma_key_chain_len(seed: Seq<u8>, pad: Seq<u8>, x: nat)
    ensures
        key_chain(seed, pad, x).1.len() == x,
    decreases x,
{
    if x > 0 {
        lemma_key_chain_len(seed, pad, (x - 1) as nat);
    }
}

/// XOR with the same keystream twice is the identity.
pub proof fn lemma_xor_involution(a: Seq<u8>, b: Seq<u8>)
    ensures
        xor_bytes(xor_bytes(a, b), b) =~= a,
{
    assert forall|i: int| 0 <= i < a.len() implies xor_bytes(xor_bytes(a, b), b)[i] == a[i] by {
        let x = a[i];
        let y = b[i];
        assert((x ^ y) ^ y == x) by (bit_vector);
    }
}

/// The payload that carries `message` under `pad` with the given nonce.
pub open spec fn spec_encrypt(message: Seq<u8>, pad: Seq<u8>, nonce: Seq<u8>) -> Seq<u8>
    recommends
        pad.len() >= 1,
        nonce.len() == 8,
{
    let seed = spec_seed(nonce, pad);
    let key = spec_key(nonce, pad, message.len() + 8);
    let sig = first8(sha3_256_of(seed + message + key));
    xor_bytes(message + sig, key) + nonce
}

/// What a payload decodes to: whether its signature matched, and the
/// recovered plaintext.
pub open spec fn spec_decrypt(payload: Seq<u8>, pad: Seq<u8>) -> (bool, Seq<u8>)
    recommends
        payload.len() >= 17,
        pad.len() >= 1,
{
    let n = payload.len() as int;
    let nonce = payload.subrange(n - 8, n);
    let ciphertext = payload.subrange(0, n - 8);
    let seed = spec_seed(nonce, pad);
    let key = spec_key(nonce, pad, (n - 8) as nat);
    let veri = xor_bytes(ciphertext, key);
    let message = veri.subrange(0, n - 16);
    let sig = veri.subrange(n - 16, n - 8);
    let truesig = first8(sha3_256_of(seed + message + key));
    (sig == truesig, message)
}

/// Round trip: decrypting what was encrypted under the same pad recovers the
/// message, and the signature always validates.
pub proof fn lemma_round_trip(message: Seq<u8>, pad: Seq<u8>, nonce: Seq<u8>)
    requires
        pad.len() >= 1,
        nonce.len() == 8,
    ensures
        spec_decrypt(spec_encrypt(message, pad, nonce), pad).0 == true,
        spec_decrypt(spec_encrypt(message, pad, nonce), pad).1 == message,
{
    let seed = spec_seed(nonce, pad);
    let key = spec_key(nonce, pad, message.len() + 8);
    let sig = first8(sha3_256_of(seed + message + key));
    let veri = message + sig;
    let payload = spec_encrypt(message, pad, nonce);
    let n = payload.len() as int;
    assert(xor_bytes(veri, key).len() == veri.len());
    assert(n == message.len() + 16);
    assert(payload.subrange(n - 8, n) =~= nonce);
    assert(payload.subrange(0, n - 8) =~= xor_bytes(veri, key));
    lemma_xor_involution(veri, key);
    let veri2 = xor_bytes(payload.subrange(0, n - 8), key);
    assert(veri2 =~= veri);
    assert(veri2.subrange(0, n - 16) =~= message);
    assert(veri2.subrange(n - 16, n - 8) =~= sig);
}

/// Derive the keystream and secret seed for one payload from its nonce.
pub fn keygen(nonce: &Vec<u8>, pad: &Vec<u8>, keysize: usize) -> (r: (Vec<u8>, Vec<u8>))
    requires
        nonce@.len() == 8,
        pad@.len() >= 1,
    ensures
        r.0@ == spec_key(nonce@, pad@, keysize as nat),
        r.1@ == spec_seed(nonce@, pad@),
        r.0@.len() == keysize,
        r.1@.len() == 8,
{
    let mut seednonce: Vec<u8> = clone_bytes(nonce);
    let mut seed: Vec<u8> = Vec::new();
    let mut x: usize = 0;
    while x < 8
        invariant
            x <= 8,
            nonce@.len() == 8,
            pad@.len() >= 1,
            seednonce@ == seed_chain(nonce@, pad@, x as nat).0,
            seed@ == seed_chain(nonce@, pad@, x as nat).1,
            seed@.len() == x,
        decreases 8 - x,
    {
        proof {
            lemma_seed_chain_len(nonce@, pad@, x as nat);
        }
        let mut input: Vec<u8> = Vec::new();
        push_all(&mut input, nonce);
        push_all(&mut input, &seednonce);
        if seed.len() >= 1 {
            input.push(seed[seed.len() - 1]);
            proof {
                assert(input@ =~= nonce@ + seednonce@ + seq![seed@.last()]);
            }
        } else {
            proof {
                assert(input@ =~= nonce@ + seednonce@ + Seq::<u8>::empty());
            }
        }
        let digest = sha3_256(&input);
        seednonce = take8(digest);
        let idx = pad_offset(&seednonce, pad.len());
        seed.push(pad[idx]);
        x = x + 1;
    }
    let mut keybytes: Vec<u8> = Vec::new();
    let mut keynonce: Vec<u8> = clone_bytes(&seed);
    let mut y: usize = 0;
    while y < keysize
        invariant
            y <= keysize,
            pad@.len() >= 1,
            seed@ == spec_seed(nonce@, pad@),
            seed@.len() == 8,
            keynonce@ == key_chain(seed@, pad@, y as nat).0,
            keybytes@ == key_chain(seed@, pad@, y as nat).1,
            keybytes@.len() == y,
        decreases keysize - y,
    {
        proof {
            lemma_key_chain_len(seed@, pad@, y as nat);
        }
        let mut input: Vec<u8> = Vec::new();
        push_all(&mut input, &seed);
        push_all(&mut input, &keynonce);
        if keybytes.len() >= 1 {
            input.push(keybytes[keybytes.len() - 1]);
            proof {
                assert(input@ =~= seed@ + keynonce@ + seq![keybytes@.last()]);
            }
        } else {
            proof {
                assert(input@ =~= seed@ + keynonce@ + Seq::<u8>::empty());
            }
        }
        let digest = sha3_256(&input);
        keynonce = take8(digest);
        let idx = pad_offset(&keynonce, pad.len());
        keybytes.push(pad[idx]);
        y = y + 1;
    }
    proof {
        lemma_key_chain_len(seed@, pad@, keysize as nat);
    }
    (keybytes, seed)
}

/// The executable pad offset for an eight-byte chain nonce.
fn pad_offset(nonce8: &Vec<u8>, padlen: usize) -> (idx: usize)
    requires
        nonce8@.len() == 8,
        padlen >= 1,
    ensures
        idx == spec_u64_from_le_bytes(nonce8@) as int % padlen as int,
        idx < padlen,
{
    let v: u64 = bytes_u64(nonce8);
    (v % (padlen as u64)) as usize
}

/// Encrypt `message` under `pad` with an explicit nonce.
pub fn encrypt_with_nonce(message: &Vec<u8>, pad: &Vec<u8>, noncebytes: &Vec<u8>) -> (payload: Vec<
    u8,
>)
    requires
        pad@.len() >= 1,
        noncebytes@.len() == 8,
        message@.len() + 16 <= usize::MAX,
    ensures
        payload@ == spec_encrypt(message@, pad@, noncebytes@),
        payload@.len() == message@.len() + 16,
{
    let keysize: usize = message.len() + 8;
    let (keybytes, seed) = keygen(noncebytes, pad, keysize);
    let mut siginput: Vec<u8> = Vec::new();
    push_all(&mut siginput, &seed);
    push_all(&mut siginput, message);
    push_all(&mut siginput, &keybytes);
    let digest = sha3_256(&siginput);
    let signature = take8(digest);
    let mut verimessage: Vec<u8> = clone_bytes(message);
    push_all(&mut verimessage, &signature);
    let mut payload: Vec<u8> = Vec::new();
    let mut x: usize = 0;
    while x < keysize
        invariant
            x <= keysize,
            keysize == verimessage@.len(),
            keysize == keybytes@.len(),
            payload@.len() == x,
            forall|i: int| 0 <= i < x ==> payload@[i] == (verimessage@[i] ^ keybytes@[i]),
        decreases keysize - x,
    {
        payload.push(verimessage[x] ^ keybytes[x]);
        x = x + 1;
    }
    proof {
        assert(payload@ =~= xor_bytes(verimessage@, keybytes@));
        assert(verimessage@ == message@ + first8(sha3_256_of(seed@ + message@ + keybytes@)));
    }
    push_all(&mut payload, noncebytes);
    payload
}

/// Encrypt `message` under `pad` with a freshly drawn random nonce; the
/// nonce travels in the clear as the trailing eight payload bytes.
pub fn encrypt(message: &Vec<u8>, pad: &Vec<u8>) -> (payload: Vec<u8>)
    requires
        pad@.len() >= 1,
        message@.len() + 16 <= usize::MAX,
    ensures
        payload@.len() == message@.len() + 16,
        payload@ == spec_encrypt(
            message@,
            pad@,
            payload@.subrange(message@.len() as int + 8, message@.len() as int + 16),
        ),
{
    let nonce: u64 = random_u64();
    let noncebytes = u64_bytes(nonce);
    let payload = encrypt_with_nonce(message, pad, &noncebytes);
    proof {
        assert(payload@.subrange(message@.len() as int + 8, message@.len() as int + 16)
            =~= noncebytes@);
    }
    payload
}

/// Decrypt a payload: recover the plaintext and report whether the embedded
/// signature matches the one recomputed from the shared pad.
pub fn decrypt(payload: &Vec<u8>, pad: &Vec<u8>) -> (r: (bool, Vec<u8>))
    requires
        payload@.len() >= 17,
        pad@.len() >= 1,
    ensures
        r.0 == spec_decrypt(payload@, pad@).0,
        r.1@ == spec_decrypt(payload@, pad@).1,
        r.1@.len() == payload@.len() - 16,
{
    let n: usize = payload.len();
    let noncebytes = subvec(payload, n - 8, n);
    let ciphertext = subvec(payload, 0, n - 8);
    let keysize: usize = n - 8;
    let (keybytes, seed) = keygen(&noncebytes, pad, keysize);
    let mut verimessage: Vec<u8> = Vec::new();
    let mut x: usize = 0;
    while x < keysize
        invariant
            x <= keysize,
            keysize == ciphertext@.len(),
            keysize == keybytes@.len(),
            verimessage@.len() == x,
            forall|i: int| 0 <= i < x ==> verimessage@[i] == (ciphertext@[i] ^ keybytes@[i]),
        decreases keysize - x,
    {
        verimessage.push(ciphertext[x] ^ keybytes[x]);
        x = x + 1;
    }
    proof {
        assert(verimessage@ =~= xor_bytes(ciphertext@, keybytes@));
    }
    let message = subvec(&verimessage, 0, keysize - 8);
    let signature = subvec(&verimessage, keysize - 8, keysize);
    let mut siginput: Vec<u8> = Vec::new();
    push_all(&mut siginput, &seed);
    push_all(&mut siginput, &message);
    push_all(&mut siginput, &keybytes);
    let digest = sha3_256(&siginput);
    let truesig = take8(digest);
    let valid = bytes_eq(&signature, &truesig);
    (valid, message)
}

} // verus!
