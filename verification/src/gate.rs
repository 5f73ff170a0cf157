//! The authorization gate: a key of 64 hexadecimal characters opens a sealed
//! payload by authenticated decryption, and only an opened payload lets a
//! privileged operation proceed.

use aes_gcm::aead::Aead;
use aes_gcm::{Aes256Gcm, Key, KeyInit, Nonce};
use vstd::prelude::*;
use vstd::string::*;
use vstd::utf8::*;

verus! {

/// Why authorization was refused.
#[derive(Debug, Clone, Copy, PartialEq, Eq, Structural)]
pub enum AuthorizationError {
    /// No key was supplied.
    MissingKey,
    /// The key is not 64 hexadecimal characters.
    InvalidKeyFormat,
    /// The key does not open the payload.
    DecryptionFailed,
}

/// A payload sealed by AES-256-GCM, with the nonce it was sealed under. The
/// ciphertext ends with its 16-byte authentication tag.
#[derive(Debug)]
pub struct SealedPayload {
    pub nonce: [u8; 12],
    pub ciphertext: Vec<u8>,
}

/// `hex::FromHexError`, the error of `hex::decode`. It is carried through
/// unread.
#[verifier::external_type_specification]
#[verifier::external_body]
pub struct ExFromHexError(hex::FromHexError);

/// `aes_gcm::Error`, the error of the cipher, which says nothing of its
/// cause. It is carried through unread.
#[verifier::external_type_specification]
#[verifier::external_body]
pub struct ExAeadError(aes_gcm::Error);

/// `b` is the ASCII code of a hexadecimal digit, of either case.
pub open spec fn is_hex_digit(b: u8) -> bool {
    ||| 0x30 <= b <= 0x39
    ||| 0x41 <= b <= 0x46
    ||| 0x61 <= b <= 0x66
}

/// The value, 0 to 15, of a hexadecimal digit.
pub open spec fn hex_value(b: u8) -> int {
    if 0x30 <= b <= 0x39 {
        b - 0x30
    } else if 0x41 <= b <= 0x46 {
        b - 0x41 + 10
    } else {
        b - 0x61 + 10
    }
}

/// `text` is an even number of hexadecimal digits.
pub open spec fn is_hex_text(text: Seq<u8>) -> bool {
    &&& text.len() % 2 == 0
    &&& forall|i: int| 0 <= i < text.len() ==> is_hex_digit(#[trigger] text[i])
}

/// The bytes that hexadecimal text stands for: one for each pair of digits,
/// the first digit of a pair being the high half.
pub open spec fn hex_decoded(text: Seq<u8>) -> Seq<u8> {
    Seq::new(
        text.len() / 2,
        |i: int| (16 * hex_value(text[2 * i]) + hex_value(text[2 * i + 1])) as u8,
    )
}

/// `hex::decode` on a byte slice. It succeeds exactly on an even number of
/// hexadecimal digits, upper or lower case, and then returns one byte for
/// each pair of digits.
#[verifier::external_body]
fn hex_decode(text: &[u8]) -> (decoded: Result<Vec<u8>, hex::FromHexError>)
    ensures
        decoded is Ok <==> is_hex_text(text@),
        decoded matches Ok(bytes) ==> bytes@ == hex_decoded(text@),
{
    hex::decode(text)
}

/// What AES-256-GCM decryption of `sealed` under `key` and `nonce`, without
/// associated data, returns: the plaintext, or nothing where the cipher
/// refuses the input.
pub uninterp spec fn aes256_gcm_open(key: Seq<u8>, nonce: Seq<u8>, sealed: Seq<u8>) -> Option<
    Seq<u8>,
>;

/// `Aead::decrypt` of `aes_gcm::Aes256Gcm`, on the cipher that
/// `Aes256Gcm::new` makes of `key`. The result is a function of the three
/// byte strings. The cipher opens nothing shorter than its 16-byte tag, and
/// a plaintext is as long as what was sealed without the tag.
#[verifier::external_body]
fn open_sealed(key: &[u8], nonce: &[u8], sealed: &[u8]) -> (opened: Result<Vec<u8>, aes_gcm::Error>)
    requires
        key@.len() == 32,
        nonce@.len() == 12,
    ensures
        match opened {
            Ok(plain) => aes256_gcm_open(key@, nonce@, sealed@) == Some(plain@),
            Err(_) => aes256_gcm_open(key@, nonce@, sealed@) is None,
        },
        opened matches Ok(plain) ==> sealed@.len() >= 16 && plain@.len() == sealed@.len() - 16,
{
    let cipher = Aes256Gcm::new(Key::<Aes256Gcm>::from_slice(key));
    cipher.decrypt(Nonce::from_slice(nonce), sealed)
}

/// `c` is a hexadecimal digit, of either case.
pub open spec fn is_hex_char(c: char) -> bool {
    ||| '0' <= c <= '9'
    ||| 'A' <= c <= 'F'
    ||| 'a' <= c <= 'f'
}

/// A key is written as exactly 64 hexadecimal characters.
pub open spec fn valid_key_text(key: Seq<char>) -> bool {
    &&& key.len() == 64
    &&& forall|i: int| 0 <= i < key.len() ==> is_hex_char(#[trigger] key[i])
}

/// The 32 bytes that a valid key text stands for.
pub open spec fn key_bytes(key: Seq<char>) -> Seq<u8> {
    Seq::new(32, |i: int| (16 * hex_value(key[2 * i] as u8) + hex_value(key[2 * i + 1] as u8)) as u8)
}

proof fn lemma_leading_byte_is_high(scalar: u32)
    requires
        !has_width_1_encoding(scalar),
    ensures
        encode_scalar(scalar)[0] >= 0x80,
{
    let two = ((scalar >> 6) & 0x1F) as u8;
    let three = ((scalar >> 12) & 0x0F) as u8;
    let four = ((scalar >> 18) & 0x7) as u8;
    assert(0xC0u8 | two >= 0x80) by (bit_vector);
    assert(0xE0u8 | three >= 0x80) by (bit_vector);
    assert(0xF0u8 | four >= 0x80) by (bit_vector);
}

/// Text whose UTF-8 encoding holds only bytes below 0x80 is ASCII.
proof fn lemma_low_bytes_are_ascii(chars: Seq<char>)
    requires
        forall|i: int| 0 <= i < encode_utf8(chars).len() ==> #[trigger] encode_utf8(chars)[i] < 0x80,
    ensures
        is_ascii_chars(chars),
    decreases chars.len(),
{
    if chars.len() > 0 {
        let head = chars[0] as u32;
        let rest = chars.drop_first();
        let bytes = encode_utf8(chars);
        char_is_scalar(chars[0]);
        // the first byte is low, so the first character takes one byte
        assert(bytes[0] == encode_scalar(head)[0]);
        if !has_width_1_encoding(head) {
            lemma_leading_byte_is_high(head);
        }
        assert forall|i: int| 0 <= i < encode_utf8(rest).len() implies #[trigger] encode_utf8(
            rest,
        )[i] < 0x80 by {
            assert(encode_utf8(rest)[i] == bytes[i + 1]);
        }
        lemma_low_bytes_are_ascii(rest);
        assert forall|i: int| 0 <= i < chars.len() implies '\0' <= #[trigger] chars[i]
            <= '\u{7f}' by {
            if i > 0 {
                assert(chars[i] == rest[i - 1]);
            } else {
                char_u32_cast(chars[0], head);
            }
        }
    }
}

/// A key text is valid exactly when its UTF-8 encoding is 64 hexadecimal
/// digits, which then stand for the key's 32 bytes.
pub proof fn lemma_key_text_encoding(key: Seq<char>)
    ensures
        valid_key_text(key) <==> encode_utf8(key).len() == 64 && is_hex_text(encode_utf8(key)),
        valid_key_text(key) <==> is_hex_text(encode_utf8(key)) && hex_decoded(
            encode_utf8(key),
        ).len() == 32,
        valid_key_text(key) ==> hex_decoded(encode_utf8(key)) == key_bytes(key),
{
    let bytes = encode_utf8(key);
    if valid_key_text(key) {
        // hexadecimal characters are ASCII: one byte each, of the same code
        is_ascii_chars_encode_utf8(key);
        assert forall|i: int| 0 <= i < bytes.len() implies is_hex_digit(#[trigger] bytes[i]) by {
            assert(bytes[i] == key[i] as u8);
        }
    }
    if is_hex_text(bytes) && (bytes.len() == 64 || hex_decoded(bytes).len() == 32) {
        // hexadecimal digits lie below 0x80, so the text they encode is ASCII
        assert forall|i: int| 0 <= i < bytes.len() implies #[trigger] bytes[i] < 0x80 by {
            assert(is_hex_digit(bytes[i]));
        }
        lemma_low_bytes_are_ascii(key);
        is_ascii_chars_encode_utf8(key);
        assert forall|i: int| 0 <= i < key.len() implies is_hex_char(#[trigger] key[i]) by {
            assert(bytes[i] == key[i] as u8);
        }
    }
}

/// An operator's key: 32 bytes of key material.
pub struct AuthorizationKey {
    material: Vec<u8>,
}

impl View for AuthorizationKey {
    type V = Seq<u8>;

    closed spec fn view(&self) -> Seq<u8> {
        self.material@
    }
}

impl AuthorizationKey {
    #[verifier::type_invariant]
    spec fn is_full_length(self) -> bool {
        self.material@.len() == 32
    }

    /// Reads a key: 64 hexadecimal characters give its 32 bytes, anything
    /// else is refused.
    pub fn parse(text: &str) -> (key: Result<AuthorizationKey, AuthorizationError>)
        ensures
            match key {
                Ok(key) => valid_key_text(text@) && key@ == key_bytes(text@),
                Err(error) => !valid_key_text(text@) && error
                    == AuthorizationError::InvalidKeyFormat,
            },
    {
        proof {
            lemma_key_text_encoding(text@);
        }
        let digits = text.as_bytes();
        if digits.len() != 64 {
            return Err(AuthorizationError::InvalidKeyFormat);
        }
        match hex_decode(digits) {
            Ok(material) => Ok(AuthorizationKey { material }),
            Err(_) => Err(AuthorizationError::InvalidKeyFormat),
        }
    }

    /// The key material.
    pub fn as_bytes(&self) -> (material: &[u8])
        ensures
            material@ == self@,
            material@.len() == 32,
    {
        proof {
            use_type_invariant(self);
        }
        self.material.as_slice()
    }

    /// Opens `sealed` with this key.
    pub fn open(&self, sealed: &SealedPayload) -> (outcome: Result<Vec<u8>, AuthorizationError>)
        ensures
            outcome_of(outcome) == verdict(
                aes256_gcm_open(self@, sealed.nonce@, sealed.ciphertext@),
            ),
            outcome matches Ok(plain) ==> sealed.ciphertext@.len() >= 16 && plain@.len()
                == sealed.ciphertext@.len() - 16,
    {
        let opened = match open_sealed(
            self.as_bytes(),
            sealed.nonce.as_slice(),
            sealed.ciphertext.as_slice(),
        ) {
            Ok(plain) => Some(plain),
            Err(_) => None,
        };
        conclude(opened)
    }
}

/// The outcome once the cipher has spoken: an opened payload passes, a
/// refused one is a failed decryption.
pub open spec fn verdict(opened: Option<Seq<u8>>) -> Result<Seq<u8>, AuthorizationError> {
    match opened {
        Some(plain) => Ok(plain),
        None => Err(AuthorizationError::DecryptionFailed),
    }
}

/// The outcome of authorization for a key, if one was supplied, and a
/// sealed payload with its nonce.
pub open spec fn gate(key: Option<Seq<char>>, nonce: Seq<u8>, sealed: Seq<u8>) -> Result<
    Seq<u8>,
    AuthorizationError,
> {
    match key {
        None => Err(AuthorizationError::MissingKey),
        Some(text) => if valid_key_text(text) {
            verdict(aes256_gcm_open(key_bytes(text), nonce, sealed))
        } else {
            Err(AuthorizationError::InvalidKeyFormat)
        },
    }
}

/// The key that an optional string slice holds.
pub open spec fn supplied(key: Option<&str>) -> Option<Seq<char>> {
    match key {
        Some(text) => Some(text@),
        None => None,
    }
}

/// An outcome of authorization as plain values.
pub open spec fn outcome_of(outcome: Result<Vec<u8>, AuthorizationError>) -> Result<
    Seq<u8>,
    AuthorizationError,
> {
    match outcome {
        Ok(plain) => Ok(plain@),
        Err(error) => Err(error),
    }
}

/// What the cipher opened, as plain values.
pub open spec fn opened_of(opened: Option<Vec<u8>>) -> Option<Seq<u8>> {
    match opened {
        Some(plain) => Some(plain@),
        None => None,
    }
}

/// Turns what the cipher returned into the outcome of authorization.
pub fn conclude(opened: Option<Vec<u8>>) -> (outcome: Result<Vec<u8>, AuthorizationError>)
    ensures
        outcome_of(outcome) == verdict(opened_of(opened)),
{
    match opened {
        Some(plain) => Ok(plain),
        None => Err(AuthorizationError::DecryptionFailed),
    }
}

/// Opens `sealed` with the key written in `key`.
pub fn decrypt_payload(key: &str, sealed: &SealedPayload) -> (outcome: Result<
    Vec<u8>,
    AuthorizationError,
>)
    ensures
        outcome_of(outcome) == gate(Some(key@), sealed.nonce@, sealed.ciphertext@),
        outcome matches Ok(plain) ==> sealed.ciphertext@.len() >= 16 && plain@.len()
            == sealed.ciphertext@.len() - 16,
{
    match AuthorizationKey::parse(key) {
        Ok(key) => key.open(sealed),
        Err(error) => Err(error),
    }
}

/// Authorization against `sealed`: without a key it reports that the key is
/// missing, with one it opens `sealed` or says why it could not.
pub fn authorize_with(key: Option<&str>, sealed: &SealedPayload) -> (outcome: Result<
    Vec<u8>,
    AuthorizationError,
>)
    ensures
        outcome_of(outcome) == gate(supplied(key), sealed.nonce@, sealed.ciphertext@),
        outcome matches Ok(plain) ==> sealed.ciphertext@.len() >= 16 && plain@.len()
            == sealed.ciphertext@.len() - 16,
{
    match key {
        None => Err(AuthorizationError::MissingKey),
        Some(text) => decrypt_payload(text, sealed),
    }
}

/// The bytes of the payload that ships with the library: sixteen bytes, which
/// is a tag without a message.
pub open spec fn bundled_ciphertext() -> Seq<u8> {
    seq![
        0x4eu8, 0x55u8, 0x4cu8, 0x4cu8, 0x4bu8, 0x49u8, 0x41u8, 0x5fu8,
        0x54u8, 0x49u8, 0x54u8, 0x41u8, 0x4eu8, 0x5fu8, 0x4du8, 0x00u8,
    ]
}

/// The nonce of the bundled payload: twelve zero bytes.
pub open spec fn bundled_nonce() -> Seq<u8> {
    Seq::new(12, |i: int| 0u8)
}

impl SealedPayload {
    /// The payload that ships with the library, under its all-zero nonce.
    pub fn bundled() -> (sealed: SealedPayload)
        ensures
            sealed.nonce@ == bundled_nonce(),
            sealed.ciphertext@ == bundled_ciphertext(),
    {
        let nonce: [u8; 12] = [0u8; 12];
        let ciphertext: Vec<u8> = vec![
            0x4eu8, 0x55u8, 0x4cu8, 0x4cu8, 0x4bu8, 0x49u8, 0x41u8, 0x5fu8,
            0x54u8, 0x49u8, 0x54u8, 0x41u8, 0x4eu8, 0x5fu8, 0x4du8, 0x00u8,
        ];
        SealedPayload { nonce, ciphertext }
    }
}

/// The outcome of authorization for `key` on the bundled payload.
pub open spec fn authorization(key: Option<Seq<char>>) -> Result<Seq<u8>, AuthorizationError> {
    gate(key, bundled_nonce(), bundled_ciphertext())
}

/// Authorization against the bundled payload. The payload holds a tag and no
/// message, so the key that opens it yields an empty plaintext.
pub fn authorize(key: Option<&str>) -> (outcome: Result<Vec<u8>, AuthorizationError>)
    ensures
        outcome_of(outcome) == authorization(supplied(key)),
        outcome matches Ok(plain) ==> plain@.len() == 0,
{
    let sealed = SealedPayload::bundled();
    authorize_with(key, &sealed)
}

/// A key text that does not decode to exactly 32 bytes is refused for its
/// format, whatever the payload.
pub proof fn lemma_malformed_key_is_refused(key: Seq<char>, nonce: Seq<u8>, sealed: Seq<u8>)
    requires
        !(is_hex_text(encode_utf8(key)) && hex_decoded(encode_utf8(key)).len() == 32),
    ensures
        !valid_key_text(key),
        gate(Some(key), nonce, sealed) == Err::<Seq<u8>, AuthorizationError>(
            AuthorizationError::InvalidKeyFormat,
        ),
{
    lemma_key_text_encoding(key);
}

/// Authorization is a function of its inputs: two runs on one key, nonce and
/// payload end alike, with the same plaintext where they succeed.
pub proof fn lemma_authorization_is_deterministic(
    key: Option<Seq<char>>,
    nonce: Seq<u8>,
    sealed: Seq<u8>,
    first: Result<Vec<u8>, AuthorizationError>,
    second: Result<Vec<u8>, AuthorizationError>,
)
    requires
        outcome_of(first) == gate(key, nonce, sealed),
        outcome_of(second) == gate(key, nonce, sealed),
    ensures
        first is Ok <==> second is Ok,
        first matches Ok(a) ==> second matches Ok(b) && a@ == b@,
        first matches Err(a) ==> second matches Err(b) && a == b,
{
}

} // verus!
