//! Symmetric encryption of compaction summaries: AES-256-GCM under a random
//! 12-byte nonce, written as the hex text of the nonce followed by the
//! ciphertext.
use vstd::prelude::*;
use vstd::utf8::{decode_utf8, encode_utf8, valid_utf8};
use aes_gcm::aead::{Aead, KeyInit};
use aes_gcm::{Aes256Gcm, Key, Nonce};
use rand::Rng;

verus! {

broadcast use vstd::utf8::group_utf8_lib;

/// Longest plaintext that AES-GCM seals, in bytes.
pub const P_MAX: u64 = 0x10_0000_0000;

pub open spec fn hex_digit_char(d: int) -> char {
    if 0 <= d < 10 {
        ((d + 48) as u32) as char
    } else {
        ((d - 10 + 97) as u32) as char
    }
}

pub open spec fn is_hex_char(c: char) -> bool {
    ('0' <= c && c <= '9') || ('a' <= c && c <= 'f') || ('A' <= c && c <= 'F')
}

pub open spec fn hex_char_value(c: char) -> int {
    if '0' <= c && c <= '9' {
        (c as int) - 48
    } else if 'a' <= c && c <= 'f' {
        (c as int) - 97 + 10
    } else {
        (c as int) - 65 + 10
    }
}

/// Two lowercase hex digits per byte.
pub open spec fn hex_text(b: Seq<u8>) -> Seq<char>
    decreases b.len(),
{
    if b.len() == 0 {
        Seq::empty()
    } else {
        hex_text(b.drop_last()) + seq![
            hex_digit_char(b.last() as int / 16),
            hex_digit_char(b.last() as int % 16),
        ]
    }
}

/// The bytes of a hex text: each pair of digits, of either case, is one byte;
/// an odd length or another character reads as nothing.
pub open spec fn hex_bytes(s: Seq<char>) -> Option<Seq<u8>>
    decreases s.len(),
{
    if s.len() == 0 {
        Some(Seq::empty())
    } else if s.len() == 1 {
        None
    } else {
        let hi = s[s.len() - 2];
        let lo = s[s.len() - 1];
        match hex_bytes(s.take(s.len() - 2)) {
            Some(p) => if is_hex_char(hi) && is_hex_char(lo) {
                Some(p.push((hex_char_value(hi) * 16 + hex_char_value(lo)) as u8))
            } else {
                None
            },
            None => None,
        }
    }
}

/// What AES-256-GCM seals `plaintext` into under `key` and `nonce`.
pub uninterp spec fn aes_gcm_sealed(key: Seq<u8>, nonce: Seq<u8>, plaintext: Seq<u8>) -> Seq<u8>;

/// What AES-256-GCM opens `ciphertext` into under `key` and `nonce`, if it is authentic.
pub uninterp spec fn aes_gcm_opened(key: Seq<u8>, nonce: Seq<u8>, ciphertext: Seq<u8>) -> Option<
    Seq<u8>,
>;

/// The plaintext of a hex ciphertext as [`decrypt`] reads it.
pub open spec fn decrypted(key: Seq<u8>, hex: Seq<char>) -> Option<Seq<char>> {
    match hex_bytes(hex) {
        None => None,
        Some(d) => if d.len() < 12 {
            None
        } else {
            match aes_gcm_opened(key, d.take(12), d.skip(12)) {
                None => None,
                Some(p) => if valid_utf8(p) {
                    Some(decode_utf8(p))
                } else {
                    None
                },
            }
        },
    }
}

/// `hex::encode`: the text of two lowercase hex digits per byte.
#[verifier::external_body]
fn hex_encode(bytes: &[u8]) -> (r: String)
    ensures
        r@ == hex_text(bytes@),
{
    hex::encode(bytes)
}

/// `hex::decode`: the bytes of a hex text of even length, digits of either case.
#[verifier::external_body]
fn hex_decode(s: &str) -> (r: Option<Vec<u8>>)
    ensures
        match r {
            Some(b) => hex_bytes(s@) == Some(b@),
            None => hex_bytes(s@).is_none(),
        },
{
    hex::decode(s).ok()
}

/// `rand::thread_rng().fill`: twelve random bytes. Which bytes is left open.
#[verifier::external_body]
fn random_nonce() -> (r: Vec<u8>)
    ensures
        r@.len() == 12,
{
    let mut n = [0u8;12];
    rand::thread_rng().fill(&mut n);
    n.to_vec()
}

/// `Aes256Gcm::encrypt`: seals any plaintext of at most [`P_MAX`] bytes; what
/// it seals opens again, under the same key and nonce, to the plaintext.
#[verifier::external_body]
fn aes_gcm_seal(key: &[u8; 32], nonce: &[u8], plaintext: &[u8]) -> (r: Option<Vec<u8>>)
    requires
        nonce@.len() == 12,
    ensures
        r is Some <==> plaintext@.len() <= P_MAX,
        r is Some ==> r->0@ == aes_gcm_sealed(key@, nonce@, plaintext@),
        r is Some ==> aes_gcm_opened(key@, nonce@, r->0@) == Some(plaintext@),
{
    let cipher = Aes256Gcm::new(Key::<Aes256Gcm>::from_slice(key));
    cipher.encrypt(Nonce::from_slice(nonce), plaintext).ok()
}

/// `Aes256Gcm::decrypt`: the plaintext of an authentic ciphertext.
#[verifier::external_body]
fn aes_gcm_open(key: &[u8; 32], nonce: &[u8], ciphertext: &[u8]) -> (r: Option<Vec<u8>>)
    requires
        nonce@.len() == 12,
    ensures
        match r {
            Some(p) => aes_gcm_opened(key@, nonce@, ciphertext@) == Some(p@),
            None => aes_gcm_opened(key@, nonce@, ciphertext@).is_none(),
        },
{
    let cipher = Aes256Gcm::new(Key::<Aes256Gcm>::from_slice(key));
    cipher.decrypt(Nonce::from_slice(nonce), ciphertext).ok()
}

/// `String::from_utf8`: the text of valid UTF-8 bytes.
#[verifier::external_body]
fn utf8_string(bytes: Vec<u8>) -> (r: Option<String>)
    ensures
        r is Some <==> valid_utf8(bytes@),
        r is Some ==> r->0@ == decode_utf8(bytes@),
{
    String::from_utf8(bytes).ok()
}

proof fn lemma_hex_roundtrip(b: Seq<u8>)
    ensures
        hex_bytes(hex_text(b)) == Some(b),
    decreases b.len(),
{
    if b.len() > 0 {
        let t = hex_text(b);
        lemma_hex_roundtrip(b.drop_last());
        let x = b.last();
        assert(t.take(t.len() - 2) =~= hex_text(b.drop_last()));
        let hi = x as int / 16;
        let lo = x as int % 16;
        assert(hex_char_value(hex_digit_char(hi)) == hi);
        assert(hex_char_value(hex_digit_char(lo)) == lo);
        assert(is_hex_char(hex_digit_char(hi)) && is_hex_char(hex_digit_char(lo)));
        assert((hi * 16 + lo) as u8 == x);
        assert(b.drop_last().push(x) =~= b);
    }
}

/// Encrypts `plaintext` under `key` with a fresh random nonce.
pub fn encrypt(key: &[u8; 32], plaintext: &str) -> (r: Option<String>)
    ensures
        r is Some <==> encode_utf8(plaintext@).len() <= P_MAX,
        r is Some ==> exists|n: Seq<u8>|
            n.len() == 12 && r->0@ == hex_text(
                n + #[trigger] aes_gcm_sealed(key@, n, encode_utf8(plaintext@)),
            ),
        r is Some ==> decrypted(key@, r->0@) == Some(plaintext@),
{
    let nonce = random_nonce();
    let sealed = aes_gcm_seal(key, nonce.as_slice(), plaintext.as_bytes());
    match sealed {
        None => None,
        Some(mut ct) => {
            let ghost c = ct@;
            let mut data = nonce;
            let ghost n = data@;
            data.append(&mut ct);
            let h = hex_encode(data.as_slice());
            proof {
                lemma_hex_roundtrip(n + c);
                assert((n + c).take(12) =~= n);
                assert((n + c).skip(12) =~= c);
            }
            Some(h)
        },
    }
}

/// Decrypts what [`encrypt`] wrote: `None` for text that is not even-length
/// hex, shorter than a nonce, not authentic under `key`, or not UTF-8.
pub fn decrypt(key: &[u8; 32], hex_ciphertext: &str) -> (r: Option<String>)
    ensures
        match r {
            Some(p) => decrypted(key@, hex_ciphertext@) == Some(p@),
            None => decrypted(key@, hex_ciphertext@).is_none(),
        },
{
    let data = match hex_decode(hex_ciphertext) {
        Some(d) => d,
        None => {
            return None;
        },
    };
    if data.len() < 12 {
        return None;
    }
    let mut nonce: Vec<u8> = Vec::new();
    let mut ct: Vec<u8> = Vec::new();
    let mut i: usize = 0;
    while i < data.len()
        invariant
            i <= data@.len(),
            12 <= data@.len(),
            nonce@ == data@.take(if i < 12 { i as int } else { 12 }),
            ct@ == if i < 12 { Seq::<u8>::empty() } else { data@.subrange(12, i as int) },
        decreases data.len() - i,
    {
        if i < 12 {
            nonce.push(data[i]);
        } else {
            ct.push(data[i]);
        }
        proof {
            assert(data@.take(if i + 1 < 12 { i + 1 } else { 12 }) =~= if i < 12 {
                data@.take(i as int).push(data@[i as int])
            } else {
                data@.take(12)
            });
            if i >= 12 {
                assert(data@.subrange(12, i + 1) =~= data@.subrange(12, i as int).push(data@[i as int]));
            } else if i + 1 == 12 {
                assert(data@.subrange(12, 12) =~= Seq::<u8>::empty());
            }
        }
        i = i + 1;
    }
    assert(ct@ =~= data@.skip(12));
    match aes_gcm_open(key, nonce.as_slice(), ct.as_slice()) {
        None => None,
        Some(p) => utf8_string(p),
    }
}

/// The compaction key configured as hex text: none when the text is
/// empty, or is not the hex of exactly 32 bytes (encryption is then off).
pub fn compact_key_from_hex(text: &str) -> (r: Option<[u8; 32]>)
    ensures
        match r {
            Some(k) => text@.len() > 0 && hex_bytes(text@) == Some(k@),
            None => text@.len() == 0 || !(hex_bytes(text@) matches Some(b) && b.len() == 32),
        },
{
    if text.is_empty() {
        return None;
    }
    let bytes = match hex_decode(text) {
        Some(b) => b,
        None => {
            return None;
        },
    };
    if bytes.len() != 32 {
        return None;
    }
    let mut key = [0u8; 32];
    let mut i: usize = 0;
    while i < 32
        invariant
            i <= 32,
            bytes@.len() == 32,
            forall|k: int| 0 <= k < i ==> key@[k] == bytes@[k],
        decreases 32 - i,
    {
        key[i] = bytes[i];
        i = i + 1;
    }
    assert(key@ =~= bytes@);
    Some(key)
}

} // verus!
