//! Sealing envelope bodies: only who holds the fragment key can read one.

use base64::engine::general_purpose::STANDARD;
use base64::Engine;
use chacha20poly1305::aead::{Aead, KeyInit};
use chacha20poly1305::{XChaCha20Poly1305, XNonce};
use rand::rngs::OsRng;
use rand::RngCore;
use sha2::{Digest, Sha256};
use vstd::prelude::*;

verus! {

pub const KEY_LEN: usize = 32;

pub const NONCE_LEN: usize = 24;

/// The length of the tag that a box carries behind its contents.
pub const TAG_LEN: usize = 16;

/// The longest text that one key and nonce can cover: the block counter has thirty-two bits, and
/// its first and last values are spent.
pub const SEAL_LIMIT: u64 = 64 * 0xffff_fffe;

/// The text of bytes in the standard base64 alphabet, padded.
pub uninterp spec fn b64_text(bytes: Seq<u8>) -> Seq<char>;

/// The bytes that a base64 text stands for, or what is wrong with it.
pub uninterp spec fn b64_bytes(text: Seq<char>) -> Result<Seq<u8>, Seq<char>>;

/// The XChaCha20-Poly1305 box of a text: as long as the text, with a tag behind it.
pub uninterp spec fn sealed_box(key: Seq<u8>, nonce: Seq<u8>, plain: Seq<u8>) -> Seq<u8>;

/// The text in an XChaCha20-Poly1305 box, if its tag is right.
pub uninterp spec fn opened_box(key: Seq<u8>, nonce: Seq<u8>, sealed: Seq<u8>) -> Option<Seq<u8>>;

/// The SHA-256 digest of a text's UTF-8 bytes.
pub uninterp spec fn sha256_of(text: Seq<char>) -> Seq<u8>;

/// Calls `rand::RngCore::fill_bytes` on `rand::rngs::OsRng` for a buffer of `n` bytes. What it is
/// filled with is chance; only the length is said. Where the system hands out no randomness the
/// call does not return.
#[verifier::external_body]
pub(crate) fn random_bytes(n: usize) -> (r: Vec<u8>)
    ensures
        r.len() == n,
{
    let mut bytes = vec![0u8; n];
    OsRng.fill_bytes(&mut bytes);
    bytes
}

/// Calls `base64::Engine::encode` with the standard padded alphabet, for bytes whose text has a
/// possible length. The text depends on the bytes alone, and decoding gives them back.
#[verifier::external_body]
pub(crate) fn encode(bytes: &Vec<u8>) -> (r: String)
    requires
        b64_len(bytes.len() as int) <= isize::MAX,
    ensures
        r@ == b64_text(bytes@),
        b64_bytes(r@) is Ok && b64_bytes(r@)->Ok_0 == bytes@,
{
    STANDARD.encode(bytes)
}

/// Calls `base64::Engine::decode` with the standard padded alphabet; an error is turned into its
/// text. Both depend on the text alone.
#[verifier::external_body]
pub(crate) fn decode(text: &str) -> (r: Result<Vec<u8>, String>)
    ensures
        match r {
            Ok(bytes) => b64_bytes(text@) == Ok::<_, Seq<char>>(bytes@),
            Err(cause) => b64_bytes(text@) == Err::<Seq<u8>, _>(cause@),
        },
{
    STANDARD.decode(text).map_err(|e| e.to_string())
}

/// Calls `XChaCha20Poly1305::encrypt` without associated data, for a text within the limit, which
/// always succeeds. The box depends on the three arguments alone, is longer than the text by the
/// tag, and opens to the text.
#[verifier::external_body]
fn encrypt(key: &Vec<u8>, nonce: &Vec<u8>, plain: &Vec<u8>) -> (r: Option<Vec<u8>>)
    requires
        key.len() == KEY_LEN,
        nonce.len() == NONCE_LEN,
        plain.len() <= SEAL_LIMIT,
    ensures
        r is Some && r->0@ == sealed_box(key@, nonce@, plain@),
        r matches Some(b) ==> b.len() == plain.len() + TAG_LEN && opened_box(key@, nonce@, b@)
            == Some(plain@),
{
    let cipher = XChaCha20Poly1305::new_from_slice(key).ok()?;
    cipher.encrypt(XNonce::from_slice(nonce), plain.as_slice()).ok()
}

/// Calls `XChaCha20Poly1305::decrypt` without associated data, for a box within the limit. Whether
/// it opens, and to what, depends on the three arguments alone; what opens is what the text would
/// be sealed to, and is longer than the text by the tag.
#[verifier::external_body]
fn decrypt(key: &Vec<u8>, nonce: &Vec<u8>, sealed: &Vec<u8>) -> (r: Option<Vec<u8>>)
    requires
        key.len() == KEY_LEN,
        nonce.len() == NONCE_LEN,
        sealed.len() <= SEAL_LIMIT + TAG_LEN,
    ensures
        match r {
            Some(p) => opened_box(key@, nonce@, sealed@) == Some(p@),
            None => opened_box(key@, nonce@, sealed@) is None,
        },
        r matches Some(p) ==> sealed.len() == p.len() + TAG_LEN && sealed_box(key@, nonce@, p@)
            == sealed@,
{
    let cipher = XChaCha20Poly1305::new_from_slice(key).ok()?;
    cipher.decrypt(XNonce::from_slice(nonce), sealed.as_slice()).ok()
}

/// Calls `sha2::Sha256::digest` on a text's UTF-8 bytes. The digest depends on the text alone.
#[verifier::external_body]
fn sha256(text: &str) -> (r: Vec<u8>)
    ensures
        r@ == sha256_of(text@),
        r.len() == 32,
{
    Sha256::digest(text.as_bytes()).to_vec()
}

/// The digest of a command by which identical commands are recognized.
pub open spec fn command_digest(normalized: Seq<char>) -> Seq<char> {
    b64_text(sha256_of(normalized))
}

/// The digest of a command by which identical commands are recognized.
pub fn digest_command(normalized: &str) -> (r: String)
    ensures
        r@ == command_digest(normalized@),
{
    encode(&sha256(normalized))
}

/// Why an envelope is not sealed or not opened.
#[derive(Debug, Clone, PartialEq, Eq)]
pub enum CryptoError {
    CiphertextNotBase64 { cause: String },
    CiphertextTooShort,
    KeyNotBase64 { cause: String },
    WrongKeyLength,
    EncryptionFailed,
    DecryptionFailed,
}

pub enum CryptoErrorView {
    CiphertextNotBase64 { cause: Seq<char> },
    CiphertextTooShort,
    KeyNotBase64 { cause: Seq<char> },
    WrongKeyLength,
    EncryptionFailed,
    DecryptionFailed,
}

impl DeepView for CryptoError {
    type V = CryptoErrorView;

    open spec fn deep_view(&self) -> CryptoErrorView {
        match self {
            CryptoError::CiphertextNotBase64 { cause } => CryptoErrorView::CiphertextNotBase64 {
                cause: cause@,
            },
            CryptoError::CiphertextTooShort => CryptoErrorView::CiphertextTooShort,
            CryptoError::KeyNotBase64 { cause } => CryptoErrorView::KeyNotBase64 { cause: cause@ },
            CryptoError::WrongKeyLength => CryptoErrorView::WrongKeyLength,
            CryptoError::EncryptionFailed => CryptoErrorView::EncryptionFailed,
            CryptoError::DecryptionFailed => CryptoErrorView::DecryptionFailed,
        }
    }
}

/// The text of a failure.
pub open spec fn crypto_error_text(e: CryptoErrorView) -> Seq<char> {
    match e {
        CryptoErrorView::CiphertextNotBase64 { cause } => "ciphertext is not valid base64: "@
            + cause,
        CryptoErrorView::CiphertextTooShort => "ciphertext is too short"@,
        CryptoErrorView::KeyNotBase64 { cause } => "key is not valid base64: "@ + cause,
        CryptoErrorView::WrongKeyLength => "key must be 32 bytes"@,
        CryptoErrorView::EncryptionFailed => "envelope encryption failed"@,
        CryptoErrorView::DecryptionFailed => "envelope decryption failed"@,
    }
}

impl CryptoError {
    /// The text of the failure.
    pub fn message(&self) -> (r: String)
        ensures
            r@ == crypto_error_text(self.deep_view()),
    {
        match self {
            CryptoError::CiphertextNotBase64 { cause } => crate::text::cat2(
                "ciphertext is not valid base64: ",
                cause.as_str(),
            ),
            CryptoError::CiphertextTooShort => "ciphertext is too short".to_owned(),
            CryptoError::KeyNotBase64 { cause } => crate::text::cat2(
                "key is not valid base64: ",
                cause.as_str(),
            ),
            CryptoError::WrongKeyLength => "key must be 32 bytes".to_owned(),
            CryptoError::EncryptionFailed => "envelope encryption failed".to_owned(),
            CryptoError::DecryptionFailed => "envelope decryption failed".to_owned(),
        }
    }
}

/// The length of the base64 text of `n` bytes.
pub open spec fn b64_len(n: int) -> int {
    (n + 2) / 3 * 4
}

/// Whether a body of `n` bytes can be sealed: one key and nonce can cover it, and the ciphertext has
/// a possible length.
pub open spec fn sealable(n: int) -> bool {
    n <= SEAL_LIMIT && b64_len(NONCE_LEN + n + TAG_LEN) <= isize::MAX
}

/// Whether a body of `n` bytes can be sealed.
pub fn can_seal(n: usize) -> (r: bool)
    ensures
        r == sealable(n as int),
{
    n as u64 <= SEAL_LIMIT && (n as u128 + 42) / 3 * 4 <= isize::MAX as u128
}

/// The ciphertext of a body: the nonce and the box behind it, in base64.
pub open spec fn ciphertext_of(plain: Seq<u8>, key: Seq<u8>, nonce: Seq<u8>) -> Seq<char> {
    b64_text(nonce + sealed_box(key, nonce, plain))
}

/// Whether a ciphertext and a fragment key are what a body is sealed to, under a key and a nonce: the
/// ciphertext stands for the nonce and the box behind it, the fragment for the key.
pub open spec fn is_sealing_under(
    plain: Seq<u8>,
    key: Seq<u8>,
    nonce: Seq<u8>,
    ciphertext: Seq<char>,
    fragment: Seq<char>,
) -> bool {
    &&& key.len() == KEY_LEN && nonce.len() == NONCE_LEN
    &&& ciphertext == ciphertext_of(plain, key, nonce) && fragment == b64_text(key)
    &&& b64_bytes(ciphertext) is Ok && b64_bytes(ciphertext)->Ok_0 == nonce + sealed_box(
        key,
        nonce,
        plain,
    )
    &&& b64_bytes(fragment) is Ok && b64_bytes(fragment)->Ok_0 == key
}

/// Whether a ciphertext and a fragment key are what a body is sealed to, under some key and nonce.
pub open spec fn is_sealing(plain: Seq<u8>, ciphertext: Seq<char>, fragment: Seq<char>) -> bool {
    exists|key: Seq<u8>, nonce: Seq<u8>| #[trigger]
        is_sealing_under(plain, key, nonce, ciphertext, fragment)
}

/// Whether bytes are what a body is sealed to under a key: a nonce and the box behind it.
pub open spec fn is_sealed(sealed: Seq<u8>, key: Seq<u8>, plain: Seq<u8>) -> bool {
    &&& key.len() == KEY_LEN
    &&& sealed.len() > NONCE_LEN
    &&& sealed == sealed.take(NONCE_LEN as int) + sealed_box(
        key,
        sealed.take(NONCE_LEN as int),
        plain,
    )
}

/// What a ciphertext and a fragment key open to, once both are bytes.
pub open spec fn unsealed(sealed: Seq<u8>, key: Seq<u8>) -> Result<Seq<u8>, CryptoErrorView> {
    if key.len() != KEY_LEN {
        Err(CryptoErrorView::WrongKeyLength)
    } else if sealed.len() > NONCE_LEN + SEAL_LIMIT + TAG_LEN {
        Err(CryptoErrorView::DecryptionFailed)
    } else {
        match opened_box(key, sealed.take(NONCE_LEN as int), sealed.skip(NONCE_LEN as int)) {
            Some(plain) => Ok(plain),
            None => Err(CryptoErrorView::DecryptionFailed),
        }
    }
}

/// What a ciphertext and a fragment key open to. The first fault found is the one reported: the
/// ciphertext's alphabet, its length, the key's alphabet, its length, the tag.
pub open spec fn opened(ciphertext: Seq<char>, key: Seq<char>) -> Result<
    Seq<u8>,
    CryptoErrorView,
> {
    match b64_bytes(ciphertext) {
        Err(cause) => Err(CryptoErrorView::CiphertextNotBase64 { cause }),
        Ok(sealed) => if sealed.len() <= NONCE_LEN {
            Err(CryptoErrorView::CiphertextTooShort)
        } else {
            match b64_bytes(key) {
                Err(cause) => Err(CryptoErrorView::KeyNotBase64 { cause }),
                Ok(k) => unsealed(sealed, k),
            }
        },
    }
}

/// The view of an outcome of opening.
pub open spec fn opened_view(r: Result<Vec<u8>, CryptoError>) -> Result<Seq<u8>, CryptoErrorView> {
    match r {
        Ok(plain) => Ok(plain@),
        Err(e) => Err(e.deep_view()),
    }
}

/// Seals a body under a given key and nonce: the ciphertext and the fragment key, both as text.
/// The two open to the body again.
pub fn seal_with(plain: &Vec<u8>, key: &Vec<u8>, nonce: &Vec<u8>) -> (r: Result<
    (String, String),
    CryptoError,
>)
    requires
        key.len() == KEY_LEN,
        nonce.len() == NONCE_LEN,
    ensures
        r is Ok <==> sealable(plain.len() as int),
        r matches Ok((ciphertext, fragment)) ==> {
            &&& ciphertext@ == ciphertext_of(plain@, key@, nonce@)
            &&& b64_bytes(ciphertext@) is Ok && b64_bytes(ciphertext@)->Ok_0 == nonce@ + sealed_box(
                key@,
                nonce@,
                plain@,
            )
            &&& fragment@ == b64_text(key@)
            &&& b64_bytes(fragment@) is Ok && b64_bytes(fragment@)->Ok_0 == key@
            &&& opened(ciphertext@, fragment@) == Ok::<_, CryptoErrorView>(plain@)
        },
        r matches Err(e) ==> e == CryptoError::EncryptionFailed,
{
    if !can_seal(plain.len()) {
        return Err(CryptoError::EncryptionFailed);
    }
    let mut inner: Vec<u8> = match encrypt(key, nonce, plain) {
        Some(inner) => inner,
        None => {
            return Err(CryptoError::EncryptionFailed);
        },
    };
    let ghost boxed = inner@;
    let mut sealed: Vec<u8> = nonce.clone();
    assert(sealed@ == nonce@);
    sealed.append(&mut inner);
    assert(sealed@ == nonce@ + boxed);
    assert(sealed@.take(NONCE_LEN as int) == nonce@);
    assert(sealed@.skip(NONCE_LEN as int) == boxed);
    let ciphertext: String = encode(&sealed);
    let fragment: String = encode(key);
    Ok((ciphertext, fragment))
}

/// Seals a body under a fresh key and a fresh nonce. The two texts open to the body again; which
/// key and nonce were drawn is chance.
pub fn seal(plain: &Vec<u8>) -> (r: Result<(String, String), CryptoError>)
    ensures
        r is Ok <==> sealable(plain.len() as int),
        r matches Ok((ciphertext, fragment)) ==> {
            &&& opened(ciphertext@, fragment@) == Ok::<_, CryptoErrorView>(plain@)
            &&& is_sealing(plain@, ciphertext@, fragment@)
        },
        r matches Err(e) ==> e == CryptoError::EncryptionFailed,
{
    let key: Vec<u8> = random_bytes(KEY_LEN);
    let nonce: Vec<u8> = random_bytes(NONCE_LEN);
    let r: Result<(String, String), CryptoError> = seal_with(plain, &key, &nonce);
    assert(r matches Ok((ciphertext, fragment)) ==> is_sealing_under(
        plain@,
        key@,
        nonce@,
        ciphertext@,
        fragment@,
    ));
    r
}

/// Sealings under different nonces have different ciphertexts, and those under different keys have
/// different fragments, whatever is sealed.
pub proof fn fresh_sealings_differ(
    plain_a: Seq<u8>,
    key_a: Seq<u8>,
    nonce_a: Seq<u8>,
    ciphertext_a: Seq<char>,
    fragment_a: Seq<char>,
    plain_b: Seq<u8>,
    key_b: Seq<u8>,
    nonce_b: Seq<u8>,
    ciphertext_b: Seq<char>,
    fragment_b: Seq<char>,
)
    requires
        is_sealing_under(plain_a, key_a, nonce_a, ciphertext_a, fragment_a),
        is_sealing_under(plain_b, key_b, nonce_b, ciphertext_b, fragment_b),
    ensures
        nonce_a != nonce_b ==> ciphertext_a != ciphertext_b,
        key_a != key_b ==> fragment_a != fragment_b,
{
    let a = nonce_a + sealed_box(key_a, nonce_a, plain_a);
    let b = nonce_b + sealed_box(key_b, nonce_b, plain_b);
    assert(a.take(NONCE_LEN as int) == nonce_a);
    assert(b.take(NONCE_LEN as int) == nonce_b);
}

/// The bytes of `v` from `from` up to `to`.
fn part(v: &Vec<u8>, from: usize, to: usize) -> (r: Vec<u8>)
    requires
        from <= to <= v.len(),
    ensures
        r@ == v@.subrange(from as int, to as int),
{
    let mut out: Vec<u8> = Vec::new();
    let mut i: usize = from;
    while i < to
        invariant
            from <= i <= to <= v.len(),
            out@ == v@.subrange(from as int, i as int),
        decreases to - i,
    {
        out.push(v[i]);
        assert(out@ == v@.subrange(from as int, i + 1));
        i = i + 1;
    }
    out
}

/// Opens a sealed body, once the ciphertext and the key are bytes. What opens is what the body is
/// sealed to under the key, to the last byte.
pub fn open_bytes(sealed: &Vec<u8>, key: &Vec<u8>) -> (r: Result<Vec<u8>, CryptoError>)
    requires
        sealed.len() > NONCE_LEN,
    ensures
        opened_view(r) == unsealed(sealed@, key@),
        r matches Ok(plain) ==> is_sealed(sealed@, key@, plain@),
{
    if key.len() != KEY_LEN {
        return Err(CryptoError::WrongKeyLength);
    }
    if sealed.len() as u64 > SEAL_LIMIT + 40 {
        return Err(CryptoError::DecryptionFailed);
    }
    let nonce: Vec<u8> = part(sealed, 0, NONCE_LEN);
    let inner: Vec<u8> = part(sealed, NONCE_LEN, sealed.len());
    assert(nonce@ == sealed@.take(NONCE_LEN as int));
    assert(inner@ == sealed@.skip(NONCE_LEN as int));
    match decrypt(key, &nonce, &inner) {
        Some(plain) => {
            assert(sealed@ == nonce@ + inner@);
            Ok(plain)
        },
        None => Err(CryptoError::DecryptionFailed),
    }
}

/// Opens a sealed body. What opens is what the body is sealed to under the key, to the last byte.
pub fn open(ciphertext_b64: &str, key_b64: &str) -> (r: Result<Vec<u8>, CryptoError>)
    ensures
        opened_view(r) == opened(ciphertext_b64@, key_b64@),
        r matches Ok(plain) ==> b64_bytes(ciphertext_b64@) is Ok && b64_bytes(key_b64@) is Ok
            && is_sealed(b64_bytes(ciphertext_b64@)->Ok_0, b64_bytes(key_b64@)->Ok_0, plain@),
{
    let sealed: Vec<u8> = match decode(ciphertext_b64) {
        Ok(sealed) => sealed,
        Err(cause) => {
            return Err(CryptoError::CiphertextNotBase64 { cause });
        },
    };
    if sealed.len() <= NONCE_LEN {
        return Err(CryptoError::CiphertextTooShort);
    }
    let key: Vec<u8> = match decode(key_b64) {
        Ok(key) => key,
        Err(cause) => {
            return Err(CryptoError::KeyNotBase64 { cause });
        },
    };
    open_bytes(&sealed, &key)
}

} // verus!
