//! The cipher that guards secrets at rest, and the chain that resolves its
//! master key.
//!
//! A stored token is the base64 text of a 12-byte nonce followed by the
//! AES-256-GCM ciphertext of the UTF-8 text and its 16-byte tag. Tokens of
//! an earlier encoding hold zero bytes behind the text; opening strips
//! every trailing zero byte before it reads the text.

use vstd::prelude::*;
use vstd::slice::slice_subrange;
use vstd::string::StringSliceAdditionalSpecFns;
use vstd::utf8::decode_utf8;
use vstd::utf8::encode_utf8;
use vstd::utf8::valid_utf8;

use base64::Engine;
use rand::RngCore;
use ring::rand::SecureRandom;

use crate::error::ConfigError;
use crate::paths::ConfigPaths;
use crate::text::append_bytes;
use crate::text::trim;

verus! {

/// Length of the master key in bytes.
pub const MASTER_KEY_BYTES: usize = 32;

/// Length of the nonce that opens every token.
pub const NONCE_BYTES: usize = 12;

/// Length of the authentication tag.
pub const TAG_BYTES: usize = 16;

/// `base64::DecodeError`: why a text is not base64. Carried through, never
/// looked into.
#[verifier::external_type_specification]
#[verifier::external_body]
pub struct ExDecodeError(base64::DecodeError);

/// `ring::error::Unspecified`: a failure of the cipher or of its generator,
/// which says no more of itself.
#[verifier::external_type_specification]
#[verifier::external_body]
pub struct ExUnspecified(ring::error::Unspecified);

/// `rand::Error`: a failure of the generator of the system. Carried through,
/// never looked into.
#[verifier::external_type_specification]
#[verifier::external_body]
pub struct ExRandError(rand::Error);

/// `std::string::FromUtf8Error`: why bytes are not UTF-8 text. Carried
/// through, never looked into.
#[verifier::external_type_specification]
#[verifier::external_body]
pub struct ExFromUtf8Error(std::string::FromUtf8Error);

/// The standard base64 text, with padding, of `bytes`.
pub uninterp spec fn base64_encoded(bytes: Seq<u8>) -> Seq<char>;

/// The bytes that the standard base64 text `text` stands for, if it is
/// well formed.
pub uninterp spec fn base64_decoded(text: Seq<char>) -> Option<Seq<u8>>;

/// The AES-256-GCM ciphertext of `plain` followed by its tag, under `key` and
/// `nonce` and without associated data, where the cipher takes the input.
pub uninterp spec fn aead_sealed(key: Seq<u8>, nonce: Seq<u8>, plain: Seq<u8>) -> Option<Seq<u8>>;

/// The plaintext that `sealed` (ciphertext, then tag) opens to under `key` and
/// `nonce`, where the tag authenticates it.
pub uninterp spec fn aead_opened(key: Seq<u8>, nonce: Seq<u8>, sealed: Seq<u8>) -> Option<Seq<u8>>;

/// The characters of standard base64 text: the letters and digits of
/// ASCII, `+`, `/`, and `=` for padding.
pub open spec fn is_base64_char(c: char) -> bool {
    ||| 'A' <= c && c <= 'Z'
    ||| 'a' <= c && c <= 'z'
    ||| '0' <= c && c <= '9'
    ||| c == '+'
    ||| c == '/'
    ||| c == '='
}

/// Calls `base64::Engine::encode` on the standard engine. The result is the
/// named encoding of `bytes`, it is written in the standard alphabet, and
/// decoding it gives `bytes` back. The call cannot size its buffer where
/// four thirds of the length overflow `usize`.
#[verifier::external_body]
fn base64_encode(bytes: &[u8]) -> (text: String)
    requires
        bytes@.len() <= usize::MAX / 4 * 3,
    ensures
        text@ == base64_encoded(bytes@),
        base64_decoded(text@) == Some(bytes@),
        forall|i: int| 0 <= i < text@.len() ==> is_base64_char(#[trigger] text@[i]),
{
    base64::engine::general_purpose::STANDARD.encode(bytes)
}

/// Calls `base64::Engine::decode` on the standard engine: the named decoding
/// of `text`, or the crate's error where `text` is not well formed.
#[verifier::external_body]
fn base64_decode(text: &str) -> (r: Result<Vec<u8>, base64::DecodeError>)
    ensures
        match base64_decoded(text@) {
            Some(bytes) => r matches Ok(v) && v@ == bytes,
            None => r is Err,
        },
{
    base64::engine::general_purpose::STANDARD.decode(text)
}

/// The words of a `base64::DecodeError`, as its `Display` gives them.
#[verifier::external_body]
fn describe_decode_error(error: &base64::DecodeError) -> String {
    format!("{}", error)
}

/// The words of a `std::string::FromUtf8Error`, as its `Display` gives them.
#[verifier::external_body]
fn describe_utf8_error(error: &std::string::FromUtf8Error) -> String {
    format!("{}", error)
}

/// Calls `ring::aead::UnboundKey::new` for AES-256-GCM and says whether the
/// key was taken. The constructor fails on a key of the wrong length and on
/// no other, and 32 bytes is the length of this cipher: the key is taken.
#[verifier::external_body]
fn aead_key_accepted(key: &[u8; 32]) -> (accepted: bool)
    ensures
        accepted,
{
    ring::aead::UnboundKey::new(&ring::aead::AES_256_GCM, key).is_ok()
}

/// Calls `ring::aead::LessSafeKey::seal_in_place_append_tag` under
/// AES-256-GCM with no associated data, on a key made from `key` by
/// `UnboundKey::new` and `LessSafeKey::new` and a nonce made from `nonce`
/// by `Nonce::assume_unique_for_key`. The result is the named sealing of
/// `plain`: the ciphertext, as long as `plain`, then the 16-byte tag. That
/// it opens to `plain` again under the same key and nonce is what makes the
/// cipher an AEAD; it is taken on trust here.
#[verifier::external_body]
fn aead_seal(key: &[u8; 32], nonce: &[u8; 12], plain: &[u8]) -> (r: Result<
    Vec<u8>,
    ring::error::Unspecified,
>)
    ensures
        match aead_sealed(key@, nonce@, plain@) {
            Some(sealed) => r matches Ok(v) && v@ == sealed,
            None => r is Err,
        },
        r matches Ok(v) ==> v@.len() == plain@.len() + 16,
        r matches Ok(v) ==> aead_opened(key@, nonce@, v@) == Some(plain@),
{
    let unbound = ring::aead::UnboundKey::new(&ring::aead::AES_256_GCM, key)?;
    let mut in_out = plain.to_vec();
    ring::aead::LessSafeKey::new(unbound).seal_in_place_append_tag(
        ring::aead::Nonce::assume_unique_for_key(*nonce),
        ring::aead::Aad::empty(),
        &mut in_out,
    )?;
    Ok(in_out)
}

/// Calls `ring::aead::LessSafeKey::open_in_place` under AES-256-GCM with no
/// associated data, on a key made from `key` by `UnboundKey::new` and
/// `LessSafeKey::new` and a nonce made from `nonce` by
/// `Nonce::try_assume_unique_for_key`. The result is the named opening of
/// `sealed`: the plaintext, 16 bytes shorter than `sealed`, or the crate's
/// error where the key is not taken, the nonce is not 12 bytes long,
/// `sealed` is shorter than a tag, or the tag does not authenticate it.
#[verifier::external_body]
fn aead_open(key: &[u8; 32], nonce: &[u8], sealed: &[u8]) -> (r: Result<
    Vec<u8>,
    ring::error::Unspecified,
>)
    ensures
        match aead_opened(key@, nonce@, sealed@) {
            Some(plain) => r matches Ok(v) && v@ == plain,
            None => r is Err,
        },
        r matches Ok(v) ==> v@.len() + 16 == sealed@.len(),
{
    let unbound = ring::aead::UnboundKey::new(&ring::aead::AES_256_GCM, key)?;
    let nonce = ring::aead::Nonce::try_assume_unique_for_key(nonce)?;
    let mut buffer = sealed.to_vec();
    let length = ring::aead::LessSafeKey::new(unbound).open_in_place(
        nonce,
        ring::aead::Aad::empty(),
        &mut buffer,
    )?.len();
    buffer.truncate(length);
    Ok(buffer)
}

/// Calls `ring::rand::SecureRandom::fill` on the system's generator for the
/// 12 bytes of a nonce. Nothing is known of the bytes.
#[verifier::external_body]
fn random_nonce() -> Result<[u8; 12], ring::error::Unspecified> {
    let mut nonce = [0u8; 12];
    ring::rand::SystemRandom::new().fill(&mut nonce)?;
    Ok(nonce)
}

/// Calls `rand::RngCore::try_fill_bytes` on `rand::rngs::OsRng` for the 32
/// bytes of a key. Nothing is known of the bytes.
#[verifier::external_body]
fn random_key() -> Result<[u8; 32], rand::Error> {
    let mut key = [0u8; 32];
    rand::rngs::OsRng.try_fill_bytes(&mut key)?;
    Ok(key)
}

/// Calls `String::from_utf8`: the text that `bytes` encode, or the error of
/// std where they are not UTF-8.
#[verifier::external_body]
fn text_from_utf8(bytes: Vec<u8>) -> (r: Result<String, std::string::FromUtf8Error>)
    ensures
        match r {
            Ok(text) => valid_utf8(bytes@) && text@ == decode_utf8(bytes@),
            Err(_) => !valid_utf8(bytes@),
        },
{
    String::from_utf8(bytes)
}

/// `bytes` without the zero bytes at its end.
pub open spec fn strip_trailing_zeros(bytes: Seq<u8>) -> Seq<u8>
    decreases bytes.len(),
{
    if bytes.len() > 0 && bytes.last() == 0 {
        strip_trailing_zeros(bytes.drop_last())
    } else {
        bytes
    }
}

/// The token that `text` is sealed into under `key` and `nonce`, where the
/// cipher takes the input.
pub open spec fn token_of(key: Seq<u8>, nonce: Seq<u8>, text: Seq<char>) -> Option<Seq<char>> {
    match aead_sealed(key, nonce, encode_utf8(text)) {
        Some(sealed) => Some(base64_encoded(nonce + sealed)),
        None => None,
    }
}

/// The nonce that a token carries in front of its payload, where the token
/// is base64 of at least that many bytes.
pub open spec fn nonce_of(token: Seq<char>) -> Option<Seq<u8>> {
    match base64_decoded(token) {
        Some(payload) => if payload.len() >= 12 {
            Some(payload.take(12))
        } else {
            None
        },
        None => None,
    }
}

/// Why a token does not open.
pub enum TokenFault {
    /// The token is not base64.
    Malformed,
    /// The payload holds no more than a nonce.
    TooSmall,
    /// The tag does not authenticate the ciphertext.
    Rejected,
    /// The opened bytes are not UTF-8.
    NotText,
}

/// What `token` opens to under `key`: the text, or why it does not open.
pub open spec fn plaintext_of(key: Seq<u8>, token: Seq<char>) -> Result<Seq<char>, TokenFault> {
    match base64_decoded(token) {
        None => Err(TokenFault::Malformed),
        Some(payload) => if payload.len() <= 12 {
            Err(TokenFault::TooSmall)
        } else {
            match aead_opened(key, payload.take(12), payload.skip(12)) {
                None => Err(TokenFault::Rejected),
                Some(plain) => {
                    let bytes = strip_trailing_zeros(plain);
                    if valid_utf8(bytes) {
                        Ok(decode_utf8(bytes))
                    } else {
                        Err(TokenFault::NotText)
                    }
                },
            }
        },
    }
}

/// Whether `error` is the failure that stands for `fault`. The first three
/// are encryption failures with fixed words; text that is not UTF-8 carries
/// the words of std.
pub open spec fn reports_fault(error: ConfigError, fault: TokenFault) -> bool {
    match fault {
        TokenFault::Malformed => error.is_encryption("malformed payload"@),
        TokenFault::TooSmall => error.is_encryption("payload too small"@),
        TokenFault::Rejected => error.is_encryption("failed to decrypt payload"@),
        TokenFault::NotText => error is Utf8,
    }
}

/// Whether sealing and opening gives `text` back: it does unless the text
/// ends in the character U+0000, which opening takes for padding.
pub open spec fn survives_padding(text: Seq<char>) -> bool {
    text.len() == 0 || text.last() as u32 != 0
}

/// The last byte of the encoding of a scalar is zero only for U+0000.
proof fn lemma_scalar_ends_in_zero(scalar: u32)
    requires
        vstd::utf8::is_scalar(scalar),
    ensures
        last_byte_of_scalar(scalar) == 0 <==> scalar == 0,
{
    if vstd::utf8::has_width_1_encoding(scalar) {
        assert(((scalar & 0x7F) as u8 == 0) <==> scalar == 0) by (bit_vector)
            requires
                scalar <= 0x7F,
        ;
    } else {
        assert((0x80 | (scalar & 0x3F) as u8) != 0) by (bit_vector);
    }
}

/// The last byte of the UTF-8 encoding of a scalar.
spec fn last_byte_of_scalar(scalar: u32) -> u8 {
    vstd::utf8::encode_scalar(scalar).last()
}

/// The encoding of a text that is not empty ends as the encoding of its
/// last character does.
proof fn lemma_encoding_ends_as_last_char(text: Seq<char>)
    requires
        text.len() > 0,
    ensures
        encode_utf8(text).len() > 0,
        encode_utf8(text).last() == last_byte_of_scalar(text.last() as u32),
    decreases text.len(),
{
    let rest = text.drop_first();
    if rest.len() == 0 {
        assert(encode_utf8(rest) =~= Seq::<u8>::empty());
    } else {
        lemma_encoding_ends_as_last_char(rest);
    }
}

/// A text that survives the padding has an encoding that does not end in a
/// zero byte.
pub proof fn lemma_survivor_has_no_trailing_zero(text: Seq<char>)
    requires
        survives_padding(text),
    ensures
        encode_utf8(text).len() == 0 || encode_utf8(text).last() != 0,
{
    if text.len() > 0 {
        lemma_encoding_ends_as_last_char(text);
        vstd::utf8::char_is_scalar(text.last());
        lemma_scalar_ends_in_zero(text.last() as u32);
    }
}

/// Whether `token` is a sealing of `text` under `key`: the token of `text`
/// for some nonce, which opens to `text` again where the text survives the
/// padding.
pub open spec fn seals(key: Seq<u8>, token: Seq<char>, text: Seq<char>) -> bool {
    &&& exists|nonce: Seq<u8>|
        nonce.len() == 12 && #[trigger] token_of(key, nonce, text) == Some(token) && nonce_of(token)
            == Some(nonce)
    &&& survives_padding(text) ==> plaintext_of(key, token) == Ok::<Seq<char>, TokenFault>(text)
}

/// Two tokens differ wherever the nonces that they carry do. That two
/// sealings of one text carry different nonces is left to the generator of
/// the system: it is drawn at random, 96 bits at a time.
pub proof fn lemma_tokens_differ_by_nonce(first: Seq<char>, second: Seq<char>)
    requires
        nonce_of(first) != nonce_of(second),
    ensures
        first != second,
{
}

/// Removes the zero bytes at the end of `bytes`.
fn drop_trailing_zeros(bytes: &mut Vec<u8>)
    ensures
        final(bytes)@ == strip_trailing_zeros(old(bytes)@),
{
    while bytes.len() > 0 && bytes[bytes.len() - 1] == 0
        invariant
            strip_trailing_zeros(bytes@) == strip_trailing_zeros(old(bytes)@),
        decreases bytes@.len(),
    {
        bytes.pop();
    }
}

/// The cipher: authenticated encryption of text under one master key.
pub struct CryptoService {
    key: [u8; 32],
}

impl CryptoService {
    /// The master key.
    pub closed spec fn key(&self) -> Seq<u8> {
        self.key@
    }

    /// A cipher under `master_key`. The AEAD takes every key of 32 bytes, so
    /// this succeeds.
    pub fn new(master_key: [u8; 32]) -> (r: Result<Self, ConfigError>)
        ensures
            r matches Ok(service) && service.key() == master_key@,
    {
        let accepted = aead_key_accepted(&master_key);
        Self::from_checked_key(master_key, accepted)
    }

    /// A cipher under `master_key` once the AEAD has said whether it takes
    /// the key.
    pub fn from_checked_key(master_key: [u8; 32], accepted: bool) -> (r: Result<Self, ConfigError>)
        ensures
            match r {
                Ok(service) => accepted && service.key() == master_key@,
                Err(e) => !accepted && e.is_encryption("ring operation failed"@),
            },
    {
        if accepted {
            Ok(CryptoService { key: master_key })
        } else {
            Err(ConfigError::encryption("ring operation failed"))
        }
    }

    /// A second cipher under the same key.
    pub fn duplicate(&self) -> (r: Self)
        ensures
            r.key() == self.key(),
    {
        CryptoService { key: self.key }
    }

    /// Seals `value` under a fresh random nonce. A token that comes back opens
    /// to `value` again, unless `value` ends in U+0000. Failure is an
    /// encryption failure: no nonce could be drawn, or the cipher refused.
    pub fn encrypt(&self, value: &str) -> (r: Result<String, ConfigError>)
        ensures
            r matches Ok(token) ==> seals(self.key(), token@, value@),
            r matches Err(e) ==> e is Encryption,
    {
        match random_nonce() {
            Ok(nonce) => self.encrypt_with_nonce(&nonce, value),
            Err(_) => Err(ConfigError::encryption("failed to generate nonce")),
        }
    }

    /// Seals `value` under `nonce`: the token is exactly `token_of`, and it
    /// opens to `value` again unless `value` ends in U+0000. Where the cipher
    /// refuses the input the failure is "ring operation failed"; where the
    /// payload is too long to encode it is "payload too large".
    pub fn encrypt_with_nonce(&self, nonce: &[u8; 12], value: &str) -> (r: Result<
        String,
        ConfigError,
    >)
        ensures
            match token_of(self.key(), nonce@, value@) {
                Some(token) => if encode_utf8(value@).len() + NONCE_BYTES + TAG_BYTES <= usize::MAX
                    / 4 * 3 {
                    r matches Ok(t) && t@ == token
                } else {
                    r matches Err(e) && e.is_encryption("payload too large"@)
                },
                None => r matches Err(e) && e.is_encryption("ring operation failed"@),
            },
            r matches Ok(t) ==> (survives_padding(value@) ==> plaintext_of(self.key(), t@) == Ok::<
                Seq<char>,
                TokenFault,
            >(value@)),
            r matches Ok(t) ==> nonce_of(t@) == Some(nonce@),
    {
        let sealed = match aead_seal(&self.key, nonce, value.as_bytes()) {
            Ok(sealed) => sealed,
            Err(_) => {
                return Err(ConfigError::encryption("ring operation failed"));
            },
        };
        let mut payload: Vec<u8> = Vec::new();
        append_bytes(&mut payload, nonce.as_slice());
        append_bytes(&mut payload, sealed.as_slice());
        if payload.len() > usize::MAX / 4 * 3 {
            return Err(ConfigError::encryption("payload too large"));
        }
        let token = base64_encode(payload.as_slice());
        proof {
            assert(payload@.take(12) == nonce@);
            assert(payload@.skip(12) == sealed@);
            if survives_padding(value@) {
                lemma_survivor_has_no_trailing_zero(value@);
                vstd::utf8::encode_utf8_valid_utf8(value@);
                vstd::utf8::encode_utf8_decode_utf8(value@);
            }
        }
        Ok(token)
    }

    /// Opens `cipher`: the text it was sealed from, or the failure that
    /// `plaintext_of` names. A token that does not authenticate never yields
    /// text.
    pub fn decrypt(&self, cipher: &str) -> (r: Result<String, ConfigError>)
        ensures
            match plaintext_of(self.key(), cipher@) {
                Ok(text) => r matches Ok(s) && s@ == text,
                Err(fault) => r matches Err(e) && reports_fault(e, fault),
            },
    {
        let payload = match base64_decode(cipher) {
            Ok(payload) => payload,
            Err(_) => {
                return Err(ConfigError::encryption("malformed payload"));
            },
        };
        if payload.len() <= NONCE_BYTES {
            return Err(ConfigError::encryption("payload too small"));
        }
        let nonce = slice_subrange(payload.as_slice(), 0, NONCE_BYTES);
        let sealed = slice_subrange(payload.as_slice(), NONCE_BYTES, payload.len());
        let mut plain = match aead_open(&self.key, nonce, sealed) {
            Ok(plain) => plain,
            Err(_) => {
                return Err(ConfigError::encryption("failed to decrypt payload"));
            },
        };
        drop_trailing_zeros(&mut plain);
        match text_from_utf8(plain) {
            Ok(text) => Ok(text),
            Err(error) => Err(ConfigError::Utf8(describe_utf8_error(&error))),
        }
    }
}

/// Why the text of a key store gives no key.
pub enum KeyFault {
    /// The text is not base64.
    NotBase64,
    /// The text stands for more or fewer than 32 bytes.
    WrongLength,
}

/// The master key that the text of a key store stands for: `encoded`,
/// without the white space around it, must be the base64 text of exactly 32
/// bytes.
pub open spec fn decoded_key(encoded: Seq<char>) -> Result<Seq<u8>, KeyFault> {
    match base64_decoded(crate::text::trimmed(encoded)) {
        Some(bytes) => if bytes.len() == 32 {
            Ok(bytes)
        } else {
            Err(KeyFault::WrongLength)
        },
        None => Err(KeyFault::NotBase64),
    }
}

/// Whether `error` is the failure that stands for `fault`: a base64 failure
/// with the words of the decoder, or the encryption failure "master key
/// length mismatch".
pub open spec fn reports_key_fault(error: ConfigError, fault: KeyFault) -> bool {
    match fault {
        KeyFault::NotBase64 => error is Base64,
        KeyFault::WrongLength => error.is_encryption("master key length mismatch"@),
    }
}

/// Reads a master key from the text of a key store. A text that gives no
/// key is a failure, never a reason to make a new key.
pub fn decode_key(encoded: &str) -> (r: Result<[u8; 32], ConfigError>)
    ensures
        match decoded_key(encoded@) {
            Ok(bytes) => r matches Ok(key) && key@ == bytes,
            Err(fault) => r matches Err(e) && reports_key_fault(e, fault),
        },
{
    let bytes = match base64_decode(trim(encoded)) {
        Ok(bytes) => bytes,
        Err(error) => {
            return Err(ConfigError::Base64(describe_decode_error(&error)));
        },
    };
    if bytes.len() != MASTER_KEY_BYTES {
        return Err(ConfigError::encryption("master key length mismatch"));
    }
    let mut key = [0u8; 32];
    let mut i: usize = 0;
    while i < 32
        invariant
            i <= 32,
            bytes@.len() == 32,
            forall|j: int| 0 <= j < i ==> key@[j] == bytes@[j],
        decreases 32 - i,
    {
        key[i] = bytes[i];
        i += 1;
    }
    Ok(key)
}

/// Text written in the base64 alphabet has no white space to trim.
pub proof fn lemma_base64_text_is_trimmed(text: Seq<char>)
    requires
        forall|i: int| 0 <= i < text.len() ==> is_base64_char(#[trigger] text[i]),
    ensures
        crate::text::trimmed(text) == text,
{
}

/// The text that stores `key`: its base64 encoding, which reads back as
/// `key`.
pub fn encode_key(key: &[u8; 32]) -> (r: String)
    ensures
        r@ == base64_encoded(key@),
        decoded_key(r@) == Ok::<Seq<u8>, KeyFault>(key@),
{
    let r = base64_encode(key.as_slice());
    proof {
        lemma_base64_text_is_trimmed(r@);
    }
    r
}

/// What the resolution of the master key asks of its surroundings next.
pub enum KeyStep {
    /// Ask the secret store of the platform for the stored key.
    QueryPlatformStore,
    /// Read the key file at `path`.
    ReadKeyFile { path: String },
    /// Store `encoded` in the secret store of the platform.
    SavePlatformStore { key: [u8; 32], encoded: String },
    /// Write `encoded` to the key file at `path`, creating the directories
    /// above it.
    WriteKeyFile { key: [u8; 32], encoded: String, path: String },
    /// The key is resolved.
    Done { key: [u8; 32] },
}

/// Resolves the master key from the key stores of one installation: the
/// secret store of the platform first, then the key file, then fresh
/// randomness that is saved to the first store that takes it.
pub struct KeyManager {
    /// Where the fallback key file lies.
    pub key_path: String,
}

impl KeyManager {
    /// The resolver for the key file that `paths` names.
    pub fn new(paths: &ConfigPaths) -> (r: Self)
        ensures
            r.key_path@ == paths.key_path@,
    {
        KeyManager { key_path: paths.key_path.clone() }
    }

    /// The first step: ask the secret store of the platform.
    pub fn begin(&self) -> (r: KeyStep)
        ensures
            r is QueryPlatformStore,
    {
        KeyStep::QueryPlatformStore
    }

    /// What follows the answer of the platform's secret store. A stored text
    /// resolves the key, or fails where it gives none; a store that is
    /// absent, unsupported or empty sends the resolution on to the key file.
    pub fn on_platform_secret(&self, secret: Option<&str>) -> (r: Result<KeyStep, ConfigError>)
        ensures
            match secret {
                Some(text) => match decoded_key(text@) {
                    Ok(bytes) => r matches Ok(KeyStep::Done { key }) && key@ == bytes,
                    Err(fault) => r matches Err(e) && reports_key_fault(e, fault),
                },
                None => r matches Ok(KeyStep::ReadKeyFile { path }) && path@ == self.key_path@,
            },
    {
        match secret {
            Some(text) => match decode_key(text) {
                Ok(key) => Ok(KeyStep::Done { key }),
                Err(e) => Err(e),
            },
            None => Ok(KeyStep::ReadKeyFile { path: self.key_path.clone() }),
        }
    }

    /// What follows the attempt to read the key file. Its contents resolve
    /// the key, or fail where they give none: a damaged key file is never
    /// replaced. Without a file a new key is drawn, to be saved in the
    /// secret store of the platform; where none can be drawn the failure is
    /// "failed to generate master key".
    pub fn on_key_file(&self, contents: Option<&str>) -> (r: Result<KeyStep, ConfigError>)
        ensures
            match contents {
                Some(text) => match decoded_key(text@) {
                    Ok(bytes) => r matches Ok(KeyStep::Done { key }) && key@ == bytes,
                    Err(fault) => r matches Err(e) && reports_key_fault(e, fault),
                },
                None => match r {
                    Ok(step) => step matches KeyStep::SavePlatformStore { key, encoded }
                        && decoded_key(encoded@) == Ok::<Seq<u8>, KeyFault>(key@),
                    Err(e) => e.is_encryption("failed to generate master key"@),
                },
            },
    {
        match contents {
            Some(text) => match decode_key(text) {
                Ok(key) => Ok(KeyStep::Done { key }),
                Err(e) => Err(e),
            },
            None => match random_key() {
                Ok(key) => self.on_generated(Some(key)),
                Err(_) => self.on_generated(None),
            },
        }
    }

    /// What follows the drawing of a new key: it is to be saved in the
    /// secret store of the platform, as text that reads back as the key.
    pub fn on_generated(&self, generated: Option<[u8; 32]>) -> (r: Result<KeyStep, ConfigError>)
        ensures
            match generated {
                Some(new_key) => {
                    &&& r matches Ok(KeyStep::SavePlatformStore { key, encoded })
                    &&& key@ == new_key@
                    &&& encoded@ == base64_encoded(new_key@)
                    &&& decoded_key(encoded@) == Ok::<Seq<u8>, KeyFault>(new_key@)
                },
                None => r matches Err(e) && e.is_encryption("failed to generate master key"@),
            },
    {
        match generated {
            Some(key) => {
                let encoded = encode_key(&key);
                Ok(KeyStep::SavePlatformStore { key, encoded })
            },
            None => Err(ConfigError::encryption("failed to generate master key")),
        }
    }

    /// What follows the attempt to save a new key in the secret store of the
    /// platform: the key is resolved where the store took it, else the same
    /// text goes to the key file.
    pub fn on_platform_saved(&self, key: [u8; 32], encoded: String, saved: bool) -> (r: KeyStep)
        ensures
            match r {
                KeyStep::Done { key: k } => saved && k@ == key@,
                KeyStep::WriteKeyFile { key: k, encoded: text, path } => {
                    &&& !saved
                    &&& k@ == key@
                    &&& text@ == encoded@
                    &&& path@ == self.key_path@
                },
                _ => false,
            },
    {
        if saved {
            KeyStep::Done { key }
        } else {
            KeyStep::WriteKeyFile { key, encoded, path: self.key_path.clone() }
        }
    }

    /// What follows the writing of the key file: the key is resolved.
    pub fn on_file_written(&self, key: [u8; 32]) -> (r: KeyStep)
        ensures
            r matches KeyStep::Done { key: k } && k@ == key@,
    {
        KeyStep::Done { key }
    }
}

} // verus!
