//! Digests, hex text, constant-time comparison and operating-system randomness.
use vstd::prelude::*;
use vstd::string::StringSliceAdditionalSpecFns;
use vstd::utf8::*;

use argon2::{PasswordHasher, PasswordVerifier};
use subtle::ConstantTimeEq;

verus! {

/// The SHA-256 digest of a byte sequence, as computed by the `sha2` crate.
pub uninterp spec fn sha256_digest(data: Seq<u8>) -> Seq<u8>;

/// `sha2::Sha256::digest`: the 32-byte SHA-256 digest of `data`.
#[verifier::external_body]
pub(crate) fn sha256(data: &[u8]) -> (d: Vec<u8>)
    ensures
        d@ == sha256_digest(data@),
        d@.len() == 32,
{
    <sha2::Sha256 as sha2::Digest>::digest(data).to_vec()
}

/// A running `sha2::Sha256` state, held opaque and read only through the items below: what
/// it has absorbed, and the digest it finishes with.
#[verifier::external_body]
pub struct Sha256State {
    state: sha2::Sha256,
}

/// The bytes a SHA-256 state has absorbed since it was created.
pub uninterp spec fn sha256_absorbed(state: Sha256State) -> Seq<u8>;

/// `sha2::Sha256::new`: a state that has absorbed nothing.
#[verifier::external_body]
fn sha256_start() -> (h: Sha256State)
    ensures
        sha256_absorbed(h) == Seq::<u8>::empty(),
{
    Sha256State { state: <sha2::Sha256 as sha2::Digest>::new() }
}

/// `sha2::Digest::update`: the state absorbs `data` after what it held.
#[verifier::external_body]
fn sha256_absorb(h: &mut Sha256State, data: &[u8])
    ensures
        sha256_absorbed(*final(h)) == sha256_absorbed(*old(h)) + data@,
{
    sha2::Digest::update(&mut h.state, data)
}

/// `sha2::Digest::finalize`: the SHA-256 digest of everything the state absorbed.
#[verifier::external_body]
fn sha256_result(h: Sha256State) -> (d: Vec<u8>)
    ensures
        d@ == sha256_digest(sha256_absorbed(h)),
        d@.len() == 32,
{
    sha2::Digest::finalize(h.state).to_vec()
}

/// The lowercase hexadecimal digit for a value below 16.
pub open spec fn hex_digit(v: u8) -> char {
    if v < 10 {
        ((v + 0x30) as u8) as char
    } else {
        ((v - 10 + 0x61) as u8) as char
    }
}

/// Two lowercase hexadecimal digits per byte, high nibble first.
pub open spec fn hex_text(data: Seq<u8>) -> Seq<char>
    decreases data.len(),
{
    if data.len() == 0 {
        seq![]
    } else {
        seq![hex_digit(data[0] / 16), hex_digit(data[0] % 16)] + hex_text(data.drop_first())
    }
}

/// `hex::encode`: lowercase hexadecimal text, two digits per byte.
#[verifier::external_body]
pub(crate) fn hex_encode(data: &[u8]) -> (s: String)
    ensures
        s@ == hex_text(data@),
{
    hex::encode(data)
}

/// `subtle::ConstantTimeEq::ct_eq` on byte slices: true exactly when the
/// slices have the same length and the same bytes.
#[verifier::external_body]
pub(crate) fn ct_eq_bytes(a: &[u8], b: &[u8]) -> (r: bool)
    ensures
        r == (a@ == b@),
{
    bool::from(a.ct_eq(b))
}

/// `getrandom::fill` on a buffer of `len` bytes; `None` when the operating system cannot
/// supply randomness. Nothing is stated of the bytes beyond their number.
#[verifier::external_body]
pub(crate) fn random_bytes(len: usize) -> (r: Option<Vec<u8>>)
    ensures
        r matches Some(v) ==> v@.len() == len,
{
    let mut bytes = vec![0u8; len];
    match getrandom::fill(&mut bytes) {
        Ok(()) => Some(bytes),
        Err(_) => None,
    }
}

/// The hex text of the SHA-256 digest of a string's UTF-8 bytes.
pub open spec fn text_digest(value: Seq<char>) -> Seq<char> {
    hex_text(sha256_digest(encode_utf8(value)))
}

/// Lowercase hex SHA-256 of the UTF-8 bytes of `value`.
pub fn digest(value: &str) -> (r: String)
    ensures
        r@ == text_digest(value@),
{
    let d = sha256(value.as_bytes());
    hex_encode(d.as_slice())
}

/// The byte count and lowercase hex SHA-256 of some content.
pub fn content_digest(bytes: &[u8]) -> (r: (u64, String))
    ensures
        r.0 == bytes@.len(),
        r.1@ == hex_text(sha256_digest(bytes@)),
{
    let d = sha256(bytes);
    (bytes.len() as u64, hex_encode(d.as_slice()))
}

/// The SHA-256 of content that arrives in pieces (an upload body, a file read in chunks),
/// with the number of bytes absorbed so far.
pub struct ContentHasher {
    state: Sha256State,
    len: u64,
}

impl ContentHasher {
    /// Everything absorbed so far, in order.
    pub closed spec fn absorbed(&self) -> Seq<u8> {
        sha256_absorbed(self.state)
    }

    pub closed spec fn wf(&self) -> bool {
        self.len == self.absorbed().len()
    }

    /// A hasher that has absorbed nothing.
    pub fn new() -> (h: ContentHasher)
        ensures
            h.wf(),
            h.absorbed() == Seq::<u8>::empty(),
    {
        ContentHasher { state: sha256_start(), len: 0 }
    }

    /// The number of bytes absorbed.
    pub fn len(&self) -> (n: u64)
        requires
            self.wf(),
        ensures
            n == self.absorbed().len(),
    {
        self.len
    }

    /// Absorbs `data` after what came before.
    pub fn update(&mut self, data: &[u8])
        requires
            old(self).wf(),
            old(self).absorbed().len() + data@.len() <= u64::MAX,
        ensures
            final(self).wf(),
            final(self).absorbed() == old(self).absorbed() + data@,
    {
        sha256_absorb(&mut self.state, data);
        self.len = self.len + data.len() as u64;
    }

    /// The number of bytes absorbed and their lowercase hex SHA-256.
    pub fn digest(self) -> (r: (u64, String))
        requires
            self.wf(),
        ensures
            r.0 == self.absorbed().len(),
            r.1@ == hex_text(sha256_digest(self.absorbed())),
    {
        let n = self.len;
        (n, self.finish())
    }

    /// The lowercase hex SHA-256 of everything absorbed.
    pub fn finish(self) -> (d: String)
        ensures
            d@ == hex_text(sha256_digest(self.absorbed())),
    {
        let bytes = sha256_result(self.state);
        hex_encode(bytes.as_slice())
    }
}

/// Comparison of two strings whose running time does not depend on where they differ.
pub fn constant_eq(a: &str, b: &str) -> (r: bool)
    ensures
        r == (a@ == b@),
{
    proof {
        broadcast use encode_utf8_decode_utf8;

        assert(decode_utf8(a.spec_bytes()) == a@);
        assert(decode_utf8(b.spec_bytes()) == b@);
    }
    ct_eq_bytes(a.as_bytes(), b.as_bytes())
}

/// True when `s` is the hex text of some 32 bytes.
pub open spec fn is_hex_of_32_bytes(s: Seq<char>) -> bool {
    exists|b: Seq<u8>| b.len() == 32 && s == hex_text(b)
}

/// A fresh 256-bit random secret in lowercase hex; `None` when the operating
/// system has no randomness to give.
pub fn secret() -> (r: Option<String>)
    ensures
        r matches Some(s) ==> is_hex_of_32_bytes(s@),
{
    match random_bytes(32) {
        Some(bytes) => {
            let s = hex_encode(bytes.as_slice());
            assert(bytes@.len() == 32 && s@ == hex_text(bytes@));
            Some(s)
        },
        None => None,
    }
}

/// The value of a hexadecimal digit byte.
pub open spec fn hex_value(b: u8) -> int {
    if 0x41 <= b <= 0x46 {
        b - 0x41 + 10
    } else if 0x61 <= b <= 0x66 {
        b - 0x61 + 10
    } else {
        b - 0x30
    }
}

pub open spec fn hex_byte(b: u8) -> bool {
    (0x30 <= b <= 0x39) || (0x41 <= b <= 0x46) || (0x61 <= b <= 0x66)
}

/// What `hex::decode` gives: for an even number of hex digits (either case), one byte per pair.
pub open spec fn hex_decoded(s: Seq<u8>) -> Option<Seq<u8>> {
    if s.len() % 2 == 0 && forall|i: int| 0 <= i < s.len() ==> hex_byte(#[trigger] s[i]) {
        Some(Seq::new(s.len() / 2, |i: int| (hex_value(s[2 * i]) * 16 + hex_value(s[2 * i + 1])) as u8))
    } else {
        None
    }
}

/// `hex::decode`, as its source shows: odd lengths and non-hex digits are refused, and each
/// pair of digits gives one byte.
#[verifier::external_body]
pub(crate) fn hex_decode(text: &str) -> (r: Option<Vec<u8>>)
    ensures
        match hex_decoded(text.spec_bytes()) {
            Some(b) => (r matches Some(v) && v@ == b),
            None => r is None,
        },
{
    hex::decode(text).ok()
}

/// The PHC string `argon2` produces for `password` under Argon2id (version 0x13) with memory
/// `m` KiB, `t` passes, `p` lanes and the given salt, or `None` where the crate refuses.
pub uninterp spec fn argon2id_phc(password: Seq<u8>, salt: Seq<u8>, m: u32, t: u32, p: u32) -> Option<
    Seq<char>,
>;

/// Whether `argon2` accepts `password` against the PHC string `phc` (read with
/// `PasswordHash::new`, verified with an Argon2id verifier of the given parameters).
pub uninterp spec fn argon2id_accepts(password: Seq<u8>, phc: Seq<char>, m: u32, t: u32, p: u32) -> bool;

/// `argon2::PasswordHasher::hash_password` with `Argon2::new(Argon2id, V0x13, Params::new(m,
/// t, p, None))` and the salt encoded by `SaltString::encode_b64`. The result is named: it
/// depends on these arguments alone.
#[verifier::external_body]
pub(crate) fn argon2id_hash(password: &str, salt: &[u8], m: u32, t: u32, p: u32) -> (r: Option<String>)
    ensures
        match argon2id_phc(password.spec_bytes(), salt@, m, t, p) {
            Some(h) => (r matches Some(x) && x@ == h),
            None => r is None,
        },
{
    let params = argon2::Params::new(m, t, p, None).ok()?;
    let salt = argon2::password_hash::SaltString::encode_b64(salt).ok()?;
    let hasher = argon2::Argon2::new(argon2::Algorithm::Argon2id, argon2::Version::V0x13, params);
    hasher.hash_password(password.as_bytes(), &salt).ok().map(|h| h.to_string())
}

/// `argon2::PasswordVerifier::verify_password` of `password` against `PasswordHash::new(phc)`,
/// false when the PHC string does not parse. The verifier recomputes the hash from the
/// parameters and salt the PHC string records, so a string this crate produced for the
/// same password and parameters is accepted; nothing is claimed of other strings.
#[verifier::external_body]
pub(crate) fn argon2id_verify(password: &str, phc: &str, m: u32, t: u32, p: u32) -> (r: bool)
    ensures
        r == argon2id_accepts(password.spec_bytes(), phc@, m, t, p),
        (exists|salt: Seq<u8>| argon2id_phc(password.spec_bytes(), salt, m, t, p) == Some(phc@)) ==> r,
{
    match (argon2::Params::new(m, t, p, None), argon2::PasswordHash::new(phc)) {
        (Ok(params), Ok(h)) => argon2::Argon2::new(argon2::Algorithm::Argon2id, argon2::Version::V0x13, params)
            .verify_password(password.as_bytes(), &h).is_ok(),
        _ => false,
    }
}

pub proof fn lemma_hex_digit(v: u8)
    requires
        v < 16,
    ensures
        (hex_digit(v) as u32) < 128,
        '\0' <= hex_digit(v) <= '\u{7f}',
        hex_byte(hex_digit(v) as u8),
        hex_value(hex_digit(v) as u8) == v,
{
}

pub proof fn lemma_hex_text_shape(data: Seq<u8>)
    ensures
        hex_text(data).len() == 2 * data.len(),
        forall|i: int|
            0 <= i < data.len() ==> #[trigger] hex_text(data)[2 * i] == hex_digit(data[i] / 16)
                && hex_text(data)[2 * i + 1] == hex_digit(data[i] % 16),
    decreases data.len(),
{
    if data.len() > 0 {
        let rest = data.drop_first();
        lemma_hex_text_shape(rest);
        let head = seq![hex_digit(data[0] / 16), hex_digit(data[0] % 16)];
        assert(hex_text(data) == head + hex_text(rest));
        assert forall|i: int| 0 <= i < data.len() implies #[trigger] hex_text(data)[2 * i] == hex_digit(
            data[i] / 16,
        ) && hex_text(data)[2 * i + 1] == hex_digit(data[i] % 16) by {
            if i > 0 {
                assert(rest[i - 1] == data[i]);
                assert(hex_text(rest)[2 * (i - 1)] == hex_digit(rest[i - 1] / 16));
                assert(hex_text(rest)[2 * (i - 1) + 1] == hex_digit(rest[i - 1] % 16));
            }
        }
    }
}

/// Hex decoding undoes hex encoding: the text `hex::encode` gives for some bytes is read by
/// `hex::decode` as exactly those bytes.
pub proof fn law_hex_decoding_undoes_encoding(data: Seq<u8>)
    ensures
        hex_decoded(encode_utf8(hex_text(data))) == Some(data),
{
    let t = hex_text(data);
    lemma_hex_text_shape(data);
    assert forall|k: int| 0 <= k < t.len() implies '\0' <= #[trigger] t[k] <= '\u{7f}' && hex_byte(t[k] as u8) by {
        let i = k / 2;
        if k % 2 == 0 {
            assert(k == 2 * i);
            assert(t[2 * i] == hex_digit(data[i] / 16));
            lemma_hex_digit(data[i] / 16);
        } else {
            assert(k == 2 * i + 1);
            assert(t[2 * i] == hex_digit(data[i] / 16));
            lemma_hex_digit(data[i] % 16);
        }
    }
    assert(is_ascii_chars(t));
    is_ascii_chars_encode_utf8(t);
    let bytes = encode_utf8(t);
    assert forall|k: int| 0 <= k < bytes.len() implies hex_byte(#[trigger] bytes[k]) by {
        assert(t[k] as u8 == bytes[k]);
    }
    let decoded = Seq::new(bytes.len() / 2, |i: int| (hex_value(bytes[2 * i]) * 16 + hex_value(bytes[2 * i + 1])) as u8);
    assert forall|i: int| 0 <= i < data.len() implies decoded[i] == data[i] by {
        assert(t[2 * i] == hex_digit(data[i] / 16));
        assert(bytes[2 * i] == t[2 * i] as u8);
        assert(bytes[2 * i + 1] == t[2 * i + 1] as u8);
        lemma_hex_digit(data[i] / 16);
        lemma_hex_digit(data[i] % 16);
    }
    assert(decoded =~= data);
}

/// Hex text is ASCII, so its UTF-8 bytes are its characters, one each.
pub proof fn lemma_hex_text_ascii(data: Seq<u8>)
    ensures
        is_ascii_chars(hex_text(data)),
        encode_utf8(hex_text(data)).len() == hex_text(data).len(),
        forall|k: int| 0 <= k < hex_text(data).len() ==> (#[trigger] hex_text(data)[k] as u32) < 128,
{
    let t = hex_text(data);
    lemma_hex_text_shape(data);
    assert forall|k: int| 0 <= k < t.len() implies '\0' <= #[trigger] t[k] <= '\u{7f}' && (t[k] as u32) < 128 by {
        let i = k / 2;
        if k % 2 == 0 {
            assert(k == 2 * i);
            lemma_hex_digit(data[i] / 16);
        } else {
            assert(k == 2 * i + 1);
            assert(t[2 * i] == hex_digit(data[i] / 16));
            lemma_hex_digit(data[i] % 16);
        }
    }
    is_ascii_chars_encode_utf8(t);
}

} // verus!
