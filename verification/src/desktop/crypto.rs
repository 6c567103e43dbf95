//! The cryptographic calls of the desktop shell, and the signatures built on
//! them.
use base64::engine::general_purpose::STANDARD as BASE64;
use base64::Engine;
use rand::RngCore;
use vstd::prelude::*;
use vstd::utf8::encode_utf8;

use crate::text;

verus! {

/// The longest key or message that HMAC-SHA256 takes, in bytes, rounded down:
/// the hash counts its input in 64-bit numbers of bits.
pub const HASH_LIMIT: u64 = 0x1fff_ffff_ffff_ff00;

/// The longest plaintext that AES-256-GCM seals, in bytes.
pub const SEAL_LIMIT: u64 = 68_719_476_704;

/// What `ring::hmac::sign` computes with HMAC-SHA256.
pub uninterp spec fn hmac_sha256(key: Seq<u8>, data: Seq<u8>) -> Seq<u8>;

/// What AES-256-GCM makes of a plaintext: the ciphertext with its tag.
pub uninterp spec fn aes_sealed(
    key: Seq<u8>,
    nonce: Seq<u8>,
    aad: Seq<u8>,
    plaintext: Seq<u8>,
) -> Seq<u8>;

/// What AES-256-GCM makes of a ciphertext with its tag: the plaintext, if the
/// tag is right.
pub uninterp spec fn aes_opened(
    key: Seq<u8>,
    nonce: Seq<u8>,
    aad: Seq<u8>,
    sealed: Seq<u8>,
) -> Option<Seq<u8>>;

/// The 32 bytes that HKDF-SHA256 derives.
pub uninterp spec fn hkdf_sha256(salt: Seq<u8>, secret: Seq<u8>, info: Seq<u8>) -> Seq<u8>;

/// The standard Base64 text of some bytes, with padding.
pub uninterp spec fn base64_text(bytes: Seq<u8>) -> Seq<char>;

/// The bytes of a standard Base64 text, or why it is none.
pub uninterp spec fn base64_bytes(text: Seq<char>) -> Result<Seq<u8>, Seq<char>>;

/// A hexadecimal digit, in small letters.
pub open spec fn hex_digit(n: int) -> char {
    if n < 10 {
        (n + 48) as char
    } else {
        (n + 87) as char
    }
}

/// How a character is written in a JSON string.
pub open spec fn json_char(c: char) -> Seq<char> {
    if c == '"' || c == '\\' {
        seq!['\\', c]
    } else if c == '\u{8}' {
        seq!['\\', 'b']
    } else if c == '\t' {
        seq!['\\', 't']
    } else if c == '\n' {
        seq!['\\', 'n']
    } else if c == '\u{c}' {
        seq!['\\', 'f']
    } else if c == '\r' {
        seq!['\\', 'r']
    } else if c <= '\u{1f}' {
        seq!['\\', 'u', '0', '0', hex_digit(c as int / 16), hex_digit(c as int % 16)]
    } else {
        seq![c]
    }
}

/// The characters of a text as they are written in a JSON string.
pub open spec fn json_chars(s: Seq<char>) -> Seq<char>
    decreases s.len(),
{
    if s.len() == 0 {
        s
    } else {
        json_chars(s.drop_last()) + json_char(s.last())
    }
}

/// The JSON string literal of a text, in UTF-8.
pub open spec fn json_text(s: Seq<char>) -> Seq<u8> {
    encode_utf8(seq!['"'] + json_chars(s) + seq!['"'])
}

/// `ring::hmac::sign` with a key made by `ring::hmac::Key::new` for HMAC-SHA256:
/// the authentication code of `data`, which has 32 bytes. Both calls panic on
/// input that the hash cannot count.
#[verifier::external_body]
fn hmac_sign(key: &[u8], data: &[u8]) -> (r: Vec<u8>)
    requires
        key@.len() <= HASH_LIMIT,
        data@.len() <= HASH_LIMIT,
    ensures
        r@ == hmac_sha256(key@, data@),
        r@.len() == 32,
{
    let key = ring::hmac::Key::new(ring::hmac::HMAC_SHA256, key);
    ring::hmac::sign(&key, data).as_ref().to_vec()
}

/// `ring::hmac::verify` with a key made by `ring::hmac::Key::new` for
/// HMAC-SHA256: whether `tag` is the authentication code of `data`.
#[verifier::external_body]
fn hmac_verify(key: &[u8], data: &[u8], tag: &[u8]) -> (r: bool)
    requires
        key@.len() <= HASH_LIMIT,
        data@.len() <= HASH_LIMIT,
    ensures
        r == (tag@ == hmac_sha256(key@, data@)),
{
    let key = ring::hmac::Key::new(ring::hmac::HMAC_SHA256, key);
    ring::hmac::verify(&key, data, tag).is_ok()
}

/// `ring::aead::LessSafeKey::seal_in_place_append_tag` with AES-256-GCM: the
/// ciphertext, as long as the plaintext, with a tag of 16 bytes. It fails only
/// on a plaintext above the limit of the cipher, or on additional data whose
/// bits it cannot count, which is left out here. Opening what was sealed gives
/// the plaintext back. The buffer for both has to fit into memory.
#[verifier::external_body]
pub(crate) fn aes_seal(key: &[u8], nonce: [u8; 12], aad: &[u8], plaintext: &[u8]) -> (r: Option<
    Vec<u8>,
>)
    requires
        key@.len() == 32,
        aad@.len() <= HASH_LIMIT,
        plaintext@.len() + 16 <= usize::MAX / 2,
    ensures
        r is Some <==> plaintext@.len() <= SEAL_LIMIT,
        r matches Some(c) ==> c@ == aes_sealed(key@, nonce@, aad@, plaintext@) && c@.len()
            == plaintext@.len() + 16 && aes_opened(key@, nonce@, aad@, c@) == Some(plaintext@),
{
    let key = ring::aead::UnboundKey::new(&ring::aead::AES_256_GCM, key).ok()?;
    let key = ring::aead::LessSafeKey::new(key);
    let nonce = ring::aead::Nonce::assume_unique_for_key(nonce);
    let mut buffer = plaintext.to_vec();
    key.seal_in_place_append_tag(nonce, ring::aead::Aad::from(aad), &mut buffer).ok()?;
    Some(buffer)
}

/// `ring::aead::LessSafeKey::open_in_place` with AES-256-GCM: the plaintext of
/// `sealed`, or nothing if it does not authenticate.
#[verifier::external_body]
pub(crate) fn aes_open(key: &[u8], nonce: [u8; 12], aad: &[u8], sealed: &[u8]) -> (r: Option<
    Vec<u8>,
>)
    requires
        key@.len() == 32,
    ensures
        match r {
            Some(p) => aes_opened(key@, nonce@, aad@, sealed@) == Some(p@),
            None => aes_opened(key@, nonce@, aad@, sealed@) is None,
        },
{
    let key = ring::aead::UnboundKey::new(&ring::aead::AES_256_GCM, key).ok()?;
    let key = ring::aead::LessSafeKey::new(key);
    let nonce = ring::aead::Nonce::assume_unique_for_key(nonce);
    let mut buffer = sealed.to_vec();
    let plaintext = key.open_in_place(nonce, ring::aead::Aad::from(aad), &mut buffer).ok()?;
    Some(plaintext.to_vec())
}

/// `ring::hkdf`, extract and expand with SHA-256: 32 bytes derived from a salt,
/// a secret and a purpose. The expansion fails only for longer outputs.
#[verifier::external_body]
pub(crate) fn hkdf_derive(salt: &[u8], secret: &[u8], info: &[u8]) -> (r: Option<[u8; 32]>)
    requires
        salt@.len() <= HASH_LIMIT,
        secret@.len() <= HASH_LIMIT,
        info@.len() <= HASH_LIMIT,
    ensures
        r is Some,
        r matches Some(k) ==> k@ == hkdf_sha256(salt@, secret@, info@),
{
    let prk = ring::hkdf::Salt::new(ring::hkdf::HKDF_SHA256, salt).extract(secret);
    let mut out = [0u8; 32];
    prk.expand(&[info], ring::hkdf::HKDF_SHA256).ok()?.fill(&mut out).ok()?;
    Some(out)
}

/// `base64::Engine::encode` of the standard engine: the Base64 text of `bytes`.
/// Decoding it gives the bytes back. The text, four bytes for every three, has
/// to fit into memory: the call panics where it cannot.
#[verifier::external_body]
pub(crate) fn base64_encode(bytes: &[u8]) -> (r: String)
    requires
        bytes@.len() <= usize::MAX / 8 * 3,
    ensures
        r@ == base64_text(bytes@),
        base64_bytes(r@) is Ok,
        base64_bytes(r@)->Ok_0 == bytes@,
{
    BASE64.encode(bytes)
}

/// `base64::Engine::decode` of the standard engine: the bytes of a Base64 text,
/// or the error's own words.
#[verifier::external_body]
pub(crate) fn base64_decode(text: &str) -> (r: Result<Vec<u8>, String>)
    ensures
        match r {
            Ok(bytes) => base64_bytes(text@) == Ok::<Seq<u8>, Seq<char>>(bytes@),
            Err(error) => base64_bytes(text@) == Err::<Seq<u8>, Seq<char>>(error@),
        },
{
    BASE64.decode(text.as_bytes()).map_err(|error| error.to_string())
}

/// `serde_json::to_vec` of a string: its JSON literal, in which quotes,
/// backslashes and control characters are escaped and all else stands as it is.
/// A string always has one.
#[verifier::external_body]
fn json_string(s: &str) -> (r: Result<Vec<u8>, String>)
    ensures
        r is Ok,
        r matches Ok(bytes) ==> bytes@ == json_text(s@),
{
    serde_json::to_vec(s).map_err(|error| error.to_string())
}

/// `rand::rngs::OsRng`: `n` random bytes, or the error's own words. Which bytes
/// come, and whether they do, is up to the operating system.
#[verifier::external_body]
pub(crate) fn random_bytes(n: usize) -> (r: Result<Vec<u8>, String>)
    ensures
        r matches Ok(bytes) ==> bytes@.len() == n,
{
    let mut bytes = vec![0u8; n];
    rand::rngs::OsRng.try_fill_bytes(&mut bytes).map_err(|error| error.to_string())?;
    Ok(bytes)
}

/// Whether a key and a message can be signed at all.
pub open spec fn can_sign(key: Seq<u8>, data: Seq<u8>) -> bool {
    key.len() <= HASH_LIMIT && data.len() <= HASH_LIMIT
}

/// What is wrong with a signature.
pub enum SignatureFault {
    /// It is no Base64 text, for this reason.
    Encoding(Seq<char>),
    /// It does not belong to the message.
    Mismatch,
}

/// What is wrong with `signature` as the signature of `data`, if anything.
pub open spec fn signature_fault(key: Seq<u8>, data: Seq<u8>, signature: Seq<char>) -> Option<
    SignatureFault,
> {
    match base64_bytes(signature) {
        Err(error) => Some(SignatureFault::Encoding(error)),
        Ok(tag) => if can_sign(key, data) && tag == hmac_sha256(key, data) {
            None
        } else {
            Some(SignatureFault::Mismatch)
        },
    }
}

/// Whether a text is the signature that is made of `data`: it stands for the
/// authentication code.
pub open spec fn is_signature(key: Seq<u8>, data: Seq<u8>, signature: Seq<char>) -> bool {
    &&& signature == base64_text(hmac_sha256(key, data))
    &&& base64_bytes(signature) == Ok::<Seq<u8>, Seq<char>>(hmac_sha256(key, data))
}

/// Why a signature was refused.
#[derive(Debug, Clone)]
pub enum SignatureError {
    Encoding(String),
    Mismatch,
}

/// `e` reports `fault`.
pub open spec fn reports(e: SignatureError, fault: SignatureFault) -> bool {
    match fault {
        SignatureFault::Encoding(error) => e matches SignatureError::Encoding(t) && t@ == error,
        SignatureFault::Mismatch => e is Mismatch,
    }
}

/// The signature of `data`, as Base64 text, unless it is too long to sign. It
/// is accepted for that data.
pub fn sign_bytes(key: &[u8], data: &[u8]) -> (r: Option<String>)
    ensures
        r is Some <==> can_sign(key@, data@),
        r matches Some(s) ==> is_signature(key@, data@, s@) && signature_fault(
            key@,
            data@,
            s@,
        ) is None,
{
    if key.len() as u64 > HASH_LIMIT || data.len() as u64 > HASH_LIMIT {
        return None;
    }
    let tag = hmac_sign(key, data);
    Some(base64_encode(&tag))
}

/// Checks that `signature` is the signature of `data`.
pub fn verify_bytes(key: &[u8], data: &[u8], signature: &str) -> (r: Result<(), SignatureError>)
    ensures
        match signature_fault(key@, data@, signature@) {
            None => r is Ok,
            Some(fault) => r matches Err(e) && reports(e, fault),
        },
{
    let tag = match base64_decode(signature) {
        Ok(tag) => tag,
        Err(error) => {
            return Err(SignatureError::Encoding(error));
        },
    };
    if key.len() as u64 > HASH_LIMIT || data.len() as u64 > HASH_LIMIT {
        return Err(SignatureError::Mismatch);
    }
    if hmac_verify(key, data, &tag) {
        Ok(())
    } else {
        Err(SignatureError::Mismatch)
    }
}

/// A signature that is accepted for two messages means that their
/// authentication codes are the same: one that was changed passes only if the
/// code of the change does.
pub proof fn law_signature_binds_the_message(
    key: Seq<u8>,
    data: Seq<u8>,
    other: Seq<u8>,
    signature: Seq<char>,
)
    requires
        signature_fault(key, data, signature) is None,
    ensures
        signature_fault(key, other, signature) is None <==> can_sign(key, other) && hmac_sha256(
            key,
            other,
        ) == hmac_sha256(key, data),
{
}

/// A signature is accepted exactly when it is the Base64 text of the message's
/// authentication code. Of two texts that are accepted for one message, both
/// stand for the same bytes: a signature with a byte changed is refused.
pub proof fn law_a_message_has_one_signature(
    key: Seq<u8>,
    data: Seq<u8>,
    signature: Seq<char>,
    other: Seq<char>,
)
    ensures
        signature_fault(key, data, signature) is None <==> can_sign(key, data) && base64_bytes(
            signature,
        ) == Ok::<Seq<u8>, Seq<char>>(hmac_sha256(key, data)),
        signature_fault(key, data, signature) is None && base64_bytes(other) != base64_bytes(
            signature,
        ) ==> signature_fault(key, data, other) is Some,
{
}

/// Which keys make the hotkey.
#[derive(Debug, Clone, Copy, PartialEq, Eq, Structural)]
pub enum HotkeySource {
    Fn,
    Custom,
}

impl Default for HotkeySource {
    fn default() -> (r: Self)
        ensures
            r == HotkeySource::Fn,
    {
        HotkeySource::Fn
    }
}

/// The hotkey in use.
#[derive(Debug, Clone)]
pub struct HotkeyBinding {
    pub combination: String,
    pub source: HotkeySource,
    pub reason: Option<String>,
}

impl Default for HotkeyBinding {
    fn default() -> (r: Self)
        ensures
            r.combination@ == "Fn"@,
            r.source == HotkeySource::Fn,
            r.reason is None,
    {
        HotkeyBinding { combination: "Fn".to_owned(), source: HotkeySource::Fn, reason: None }
    }
}

/// The hotkey as it is stored.
#[derive(Debug, Clone)]
pub struct HotkeyConfigPayload {
    pub combination: String,
    pub source: HotkeySource,
    pub reason: Option<String>,
}

/// The stored hotkey with its signature.
#[derive(Debug, Clone)]
pub struct HotkeyConfigEnvelope {
    pub payload: HotkeyConfigPayload,
    pub signature: String,
}

/// The stored form of a source.
pub open spec fn source_text(source: HotkeySource) -> Seq<char> {
    match source {
        HotkeySource::Fn => "\"fn\""@,
        HotkeySource::Custom => "\"custom\""@,
    }
}

/// The JSON object of a stored hotkey, without spaces: this is what is signed.
pub open spec fn payload_json(p: HotkeyConfigPayload) -> Seq<u8> {
    text::ascii_bytes("{\"combination\":"@) + json_text(p.combination@) + text::ascii_bytes(
        ",\"source\":"@,
    ) + text::ascii_bytes(source_text(p.source)) + text::ascii_bytes(",\"reason\":"@) + (
    match p.reason {
        Some(reason) => json_text(reason@),
        None => text::ascii_bytes("null"@),
    }) + text::ascii_bytes("}"@)
}

impl From<HotkeyConfigPayload> for HotkeyBinding {
    fn from(value: HotkeyConfigPayload) -> (r: Self) {
        HotkeyBinding {
            combination: value.combination,
            source: value.source,
            reason: value.reason,
        }
    }
}

impl vstd::std_specs::convert::FromSpecImpl<HotkeyConfigPayload> for HotkeyBinding {
    open spec fn obeys_from_spec() -> bool {
        true
    }

    open spec fn from_spec(v: HotkeyConfigPayload) -> Self {
        HotkeyBinding { combination: v.combination, source: v.source, reason: v.reason }
    }
}

/// The JSON object of a stored hotkey.
pub fn encode_payload(payload: &HotkeyConfigPayload) -> (r: Result<Vec<u8>, String>)
    ensures
        r matches Ok(bytes) && bytes@ == payload_json(*payload),
{
    let combination = json_string(payload.combination.as_str())?;
    let mut out: Vec<u8> = Vec::new();
    text::append_ascii(&mut out, "{\"combination\":");
    text::append_bytes(&mut out, &combination);
    text::append_ascii(&mut out, ",\"source\":");
    match payload.source {
        HotkeySource::Fn => text::append_ascii(&mut out, "\"fn\""),
        HotkeySource::Custom => text::append_ascii(&mut out, "\"custom\""),
    }
    text::append_ascii(&mut out, ",\"reason\":");
    match &payload.reason {
        Some(reason) => {
            let reason = json_string(reason.as_str())?;
            text::append_bytes(&mut out, &reason);
        },
        None => text::append_ascii(&mut out, "null"),
    }
    text::append_ascii(&mut out, "}");
    assert(out@ =~= payload_json(*payload));
    Ok(out)
}

/// Signs a hotkey for storage. The signature is accepted for that hotkey.
pub fn sign_payload(key: &[u8], payload: &HotkeyConfigPayload) -> (r: Result<String, String>)
    ensures
        r is Ok <==> can_sign(key@, payload_json(*payload)),
        r matches Ok(s) ==> is_signature(key@, payload_json(*payload), s@) && signature_fault(
            key@,
            payload_json(*payload),
            s@,
        ) is None,
{
    let serialized = encode_payload(payload)?;
    match sign_bytes(key, &serialized) {
        Some(signature) => Ok(signature),
        None => Err("hotkey payload is too long to sign".to_owned()),
    }
}

/// The hotkey of an envelope whose signature is right.
pub fn verify_envelope(key: &[u8], envelope: HotkeyConfigEnvelope) -> (r: Result<
    HotkeyBinding,
    String,
>)
    ensures
        match signature_fault(key@, payload_json(envelope.payload), envelope.signature@) {
            None => r matches Ok(b) && b == (HotkeyBinding {
                combination: envelope.payload.combination,
                source: envelope.payload.source,
                reason: envelope.payload.reason,
            }),
            Some(SignatureFault::Encoding(error)) => r matches Err(e) && e@
                == "failed to decode hotkey signature: "@ + error,
            Some(SignatureFault::Mismatch) => r matches Err(e) && e@
                == "hotkey signature mismatch"@,
        },
{
    let serialized = encode_payload(&envelope.payload)?;
    match verify_bytes(key, &serialized, envelope.signature.as_str()) {
        Ok(_) => Ok(HotkeyBinding::from(envelope.payload)),
        Err(SignatureError::Encoding(error)) => Err(
            text::concat("failed to decode hotkey signature: ", error.as_str()),
        ),
        Err(SignatureError::Mismatch) => Err("hotkey signature mismatch".to_owned()),
    }
}

/// Checks the signature of stored onboarding preferences, given their JSON text.
pub fn verify_onboarding(key: &[u8], serialized: &[u8], signature: &str) -> (r: Result<(), String>)
    ensures
        match signature_fault(key@, serialized@, signature@) {
            None => r is Ok,
            Some(SignatureFault::Encoding(error)) => r matches Err(e) && e@
                == "failed to decode onboarding signature: "@ + error,
            Some(SignatureFault::Mismatch) => r matches Err(e) && e@
                == "onboarding signature mismatch"@,
        },
{
    match verify_bytes(key, serialized, signature) {
        Ok(_) => Ok(()),
        Err(SignatureError::Encoding(error)) => Err(
            text::concat("failed to decode onboarding signature: ", error.as_str()),
        ),
        Err(SignatureError::Mismatch) => Err("onboarding signature mismatch".to_owned()),
    }
}

/// The secret that signs stored settings.
pub enum HotkeySecret {
    /// A stored one.
    Existing(Vec<u8>),
    /// A new one, which has to be stored.
    Generated(Vec<u8>),
}

/// The stored secret if it has 32 bytes, else a new one, which does.
pub fn load_or_create_secret(existing: Option<Vec<u8>>) -> (r: Result<HotkeySecret, String>)
    ensures
        match r {
            Ok(HotkeySecret::Existing(secret)) => existing == Some(secret) && secret@.len() == 32,
            Ok(HotkeySecret::Generated(secret)) => !(existing matches Some(s) && s@.len() == 32)
                && secret@.len() == 32,
            Err(error) => !(existing matches Some(s) && s@.len() == 32) && text::begins_with(
                error@,
                "failed to generate hotkey secret: "@,
            ),
        },
        existing matches Some(s) && s@.len() == 32 ==> r == Ok::<_, String>(
            HotkeySecret::Existing(existing->0),
        ),
{
    if let Some(secret) = existing {
        if secret.len() == 32 {
            return Ok(HotkeySecret::Existing(secret));
        }
    }
    match random_bytes(32) {
        Ok(secret) => Ok(HotkeySecret::Generated(secret)),
        Err(error) => {
            proof {
                text::lemma_begins_with("failed to generate hotkey secret: "@, error@);
            }
            Err(text::concat("failed to generate hotkey secret: ", error.as_str()))
        },
    }
}

} // verus!
