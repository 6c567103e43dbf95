//! The diagnostic samples of a device: sealed for storage, and kept only for a
//! while.
use vstd::prelude::*;
use vstd::set_lib::{lemma_int_range, set_int_range};

use crate::desktop::crypto;
use crate::text;

verus! {

pub const SAMPLE_ENVELOPE_VERSION: u8 = 1;

/// How long a sample is kept: a day, in nanoseconds.
pub const SAMPLE_RETENTION_NS: u128 = 86_400_000_000_000;

/// How many samples are kept.
pub const SAMPLE_RETENTION_CAPACITY: usize = 5;

/// A sealed sample as it is stored.
#[derive(Debug, Clone)]
pub struct SampleEnvelope {
    pub version: u8,
    pub nonce: String,
    pub ciphertext: String,
    pub signature: String,
}

/// Where a sealed sample is stored.
#[derive(Debug, Clone)]
pub struct SealedSample {
    pub token: String,
    pub path: String,
}

/// The keys of the sample cache.
#[derive(Debug, Clone, PartialEq, Eq)]
pub struct AudioCacheKeys {
    pub encryption: [u8; 32],
    pub hmac: [u8; 32],
}

impl AudioCacheKeys {
    pub fn encryption_key(&self) -> (r: &[u8; 32])
        ensures
            *r == self.encryption,
    {
        &self.encryption
    }

    pub fn signing_key(&self) -> (r: &[u8; 32])
        ensures
            *r == self.hmac,
    {
        &self.hmac
    }
}

/// The bytes that are authenticated with every sample.
pub open spec fn sample_aad() -> Seq<u8> {
    text::ascii_bytes("device-sample"@)
}

/// The keys derived from a master key.
pub open spec fn derived_keys(master: Seq<u8>) -> (Seq<u8>, Seq<u8>) {
    let salt = text::ascii_bytes("flowwisper.audio.cache.salt.v1"@);
    (
        crypto::hkdf_sha256(
            salt,
            master,
            text::ascii_bytes("flowwisper.audio.cache.enc.v1"@),
        ),
        crypto::hkdf_sha256(
            salt,
            master,
            text::ascii_bytes("flowwisper.audio.cache.hmac.v1"@),
        ),
    )
}

fn ascii(s: &str) -> (r: Vec<u8>)
    ensures
        r@ == text::ascii_bytes(s@),
{
    let mut out: Vec<u8> = Vec::new();
    text::append_ascii(&mut out, s);
    assert(out@ =~= text::ascii_bytes(s@));
    out
}

/// Derives the keys of the sample cache from a master key of 32 bytes or more.
pub fn derive_audio_cache_keys(master: &[u8]) -> (r: Result<AudioCacheKeys, String>)
    requires
        master@.len() <= crypto::HASH_LIMIT,
    ensures
        master@.len() < 32 ==> (r matches Err(e) && e@
            == "master key material must be at least 32 bytes"@),
        master@.len() >= 32 ==> (r matches Ok(keys) && (keys.encryption@, keys.hmac@)
            == derived_keys(master@)),
{
    if master.len() < 32 {
        return Err("master key material must be at least 32 bytes".to_owned());
    }
    let salt = ascii("flowwisper.audio.cache.salt.v1");
    let encryption_info = ascii("flowwisper.audio.cache.enc.v1");
    let hmac_info = ascii("flowwisper.audio.cache.hmac.v1");
    proof {
        reveal_strlit("flowwisper.audio.cache.salt.v1");
        reveal_strlit("flowwisper.audio.cache.enc.v1");
        reveal_strlit("flowwisper.audio.cache.hmac.v1");
    }
    let encryption = match crypto::hkdf_derive(&salt, master, &encryption_info) {
        Some(key) => key,
        None => {
            return Err("failed to derive audio encryption key".to_owned());
        },
    };
    let hmac = match crypto::hkdf_derive(&salt, master, &hmac_info) {
        Some(key) => key,
        None => {
            return Err("failed to derive audio signing key".to_owned());
        },
    };
    Ok(AudioCacheKeys { encryption, hmac })
}

/// Why an envelope cannot be opened.
pub enum OpenFault {
    Version(u8),
    NonceEncoding(Seq<char>),
    NonceLength,
    CiphertextEncoding(Seq<char>),
    SignatureEncoding(Seq<char>),
    SignatureMismatch,
    Decryption,
}

/// The sample in an envelope, or why it cannot be had. The nonce and the
/// ciphertext are signed together.
pub open spec fn opened(keys: AudioCacheKeys, envelope: SampleEnvelope) -> Result<
    Seq<u8>,
    OpenFault,
> {
    if envelope.version != SAMPLE_ENVELOPE_VERSION {
        Err(OpenFault::Version(envelope.version))
    } else {
        match crypto::base64_bytes(envelope.nonce@) {
            Err(e) => Err(OpenFault::NonceEncoding(e)),
            Ok(nonce) => if nonce.len() != 12 {
                Err(OpenFault::NonceLength)
            } else {
                match crypto::base64_bytes(envelope.ciphertext@) {
                    Err(e) => Err(OpenFault::CiphertextEncoding(e)),
                    Ok(ciphertext) => match crypto::signature_fault(
                        keys.hmac@,
                        nonce + ciphertext,
                        envelope.signature@,
                    ) {
                        Some(crypto::SignatureFault::Encoding(e)) => Err(
                            OpenFault::SignatureEncoding(e),
                        ),
                        Some(crypto::SignatureFault::Mismatch) => Err(
                            OpenFault::SignatureMismatch,
                        ),
                        None => match crypto::aes_opened(
                            keys.encryption@,
                            nonce,
                            sample_aad(),
                            ciphertext,
                        ) {
                            Some(plaintext) => Ok(plaintext),
                            None => Err(OpenFault::Decryption),
                        },
                    },
                }
            },
        }
    }
}

/// The message that reports a fault.
pub open spec fn fault_message(fault: OpenFault) -> Seq<char> {
    match fault {
        OpenFault::Version(version) => "unsupported sample envelope version: "@
            + text::decimal_text(version as nat),
        OpenFault::NonceEncoding(e) => "failed to decode sample nonce: "@ + e,
        OpenFault::NonceLength => "invalid sample nonce length"@,
        OpenFault::CiphertextEncoding(e) => "failed to decode sample ciphertext: "@ + e,
        OpenFault::SignatureEncoding(e) => "failed to decode sample signature: "@ + e,
        OpenFault::SignatureMismatch => "sample signature mismatch"@,
        OpenFault::Decryption => "failed to decrypt sample payload"@,
    }
}

/// Whether an envelope holds a sample sealed under a nonce: the nonce, the
/// ciphertext and the signature of both, each as Base64 text.
pub open spec fn is_sealed(
    keys: AudioCacheKeys,
    nonce: Seq<u8>,
    sample: Seq<u8>,
    envelope: SampleEnvelope,
) -> bool {
    let ciphertext = crypto::aes_sealed(keys.encryption@, nonce, sample_aad(), sample);
    &&& envelope.version == SAMPLE_ENVELOPE_VERSION
    &&& envelope.nonce@ == crypto::base64_text(nonce)
    &&& envelope.ciphertext@ == crypto::base64_text(ciphertext)
    &&& envelope.signature@ == crypto::base64_text(
        crypto::hmac_sha256(keys.hmac@, nonce + ciphertext),
    )
}

/// Whether a message tells why a sample could not be sealed: there was no nonce
/// to be had, or the sample is too long.
pub open spec fn is_seal_error(message: Seq<char>, sample: Seq<u8>) -> bool {
    ||| text::begins_with(message, "failed to generate sample nonce: "@)
    ||| message == "failed to seal sample payload"@ && sample.len() > crypto::SEAL_LIMIT
}

/// Seals a sample under a given nonce. What is sealed can be opened with the
/// same keys, and is then what it was.
pub fn seal_with_nonce(keys: &AudioCacheKeys, nonce: [u8; 12], sample: &[u8]) -> (r: Result<
    SampleEnvelope,
    String,
>)
    requires
        sample@.len() + 16 <= usize::MAX / 8 * 3,
    ensures
        sample@.len() > crypto::SEAL_LIMIT ==> (r matches Err(e) && e@
            == "failed to seal sample payload"@),
        sample@.len() <= crypto::SEAL_LIMIT ==> {
            &&& r matches Ok(envelope)
            &&& is_sealed(*keys, nonce@, sample@, envelope)
            &&& opened(*keys, envelope) == Ok::<Seq<u8>, OpenFault>(sample@)
        },
{
    let aad = ascii("device-sample");
    proof {
        reveal_strlit("device-sample");
    }
    let key = keys.encryption_key();
    let ciphertext = match crypto::aes_seal(key.as_slice(), nonce, &aad, sample) {
        Some(ciphertext) => ciphertext,
        None => {
            return Err("failed to seal sample payload".to_owned());
        },
    };
    let mut signed: Vec<u8> = Vec::new();
    text::append_bytes(&mut signed, nonce.as_slice());
    text::append_bytes(&mut signed, &ciphertext);
    assert(signed@ =~= nonce@ + ciphertext@);
    let signature = crypto::sign_bytes(keys.signing_key().as_slice(), &signed).unwrap();
    Ok(
        SampleEnvelope {
            version: SAMPLE_ENVELOPE_VERSION,
            nonce: crypto::base64_encode(nonce.as_slice()),
            ciphertext: crypto::base64_encode(&ciphertext),
            signature,
        },
    )
}

/// Seals a sample under a fresh random nonce. What is sealed can be opened with
/// the same keys, and is then what it was.
pub fn seal_sample_payload(keys: &AudioCacheKeys, sample: &[u8]) -> (r: Result<
    SampleEnvelope,
    String,
>)
    requires
        sample@.len() + 16 <= usize::MAX / 8 * 3,
    ensures
        r matches Ok(envelope) ==> sample@.len() <= crypto::SEAL_LIMIT && opened(*keys, envelope)
            == Ok::<Seq<u8>, OpenFault>(sample@),
        r matches Ok(envelope) ==> exists|nonce: Seq<u8>|
            nonce.len() == 12 && #[trigger] is_sealed(*keys, nonce, sample@, envelope),
        r matches Err(e) ==> is_seal_error(e@, sample@),
{
    match crypto::random_bytes(12) {
        Ok(bytes) => {
            let nonce: [u8; 12] = [
                bytes[0],
                bytes[1],
                bytes[2],
                bytes[3],
                bytes[4],
                bytes[5],
                bytes[6],
                bytes[7],
                bytes[8],
                bytes[9],
                bytes[10],
                bytes[11],
            ];
            seal_with_nonce(keys, nonce, sample)
        },
        Err(error) => {
            proof {
                text::lemma_begins_with("failed to generate sample nonce: "@, error@);
            }
            Err(text::concat("failed to generate sample nonce: ", error.as_str()))
        },
    }
}

/// The sample in an envelope.
pub fn open_sample_payload(keys: &AudioCacheKeys, envelope: &SampleEnvelope) -> (r: Result<
    Vec<u8>,
    String,
>)
    ensures
        match opened(*keys, *envelope) {
            Ok(sample) => r matches Ok(s) && s@ == sample,
            Err(fault) => r matches Err(e) && e@ == fault_message(fault),
        },
{
    if envelope.version != SAMPLE_ENVELOPE_VERSION {
        return Err(
            text::concat(
                "unsupported sample envelope version: ",
                text::decimal(envelope.version as u64).as_str(),
            ),
        );
    }
    let nonce_bytes = match crypto::base64_decode(envelope.nonce.as_str()) {
        Ok(bytes) => bytes,
        Err(error) => {
            return Err(text::concat("failed to decode sample nonce: ", error.as_str()));
        },
    };
    if nonce_bytes.len() != 12 {
        return Err("invalid sample nonce length".to_owned());
    }
    let ciphertext = match crypto::base64_decode(envelope.ciphertext.as_str()) {
        Ok(bytes) => bytes,
        Err(error) => {
            return Err(text::concat("failed to decode sample ciphertext: ", error.as_str()));
        },
    };
    let mut signed: Vec<u8> = Vec::new();
    text::append_bytes(&mut signed, &nonce_bytes);
    text::append_bytes(&mut signed, &ciphertext);
    assert(signed@ =~= nonce_bytes@ + ciphertext@);
    match crypto::verify_bytes(
        keys.signing_key().as_slice(),
        &signed,
        envelope.signature.as_str(),
    ) {
        Ok(_) => {},
        Err(crypto::SignatureError::Encoding(error)) => {
            return Err(text::concat("failed to decode sample signature: ", error.as_str()));
        },
        Err(crypto::SignatureError::Mismatch) => {
            return Err("sample signature mismatch".to_owned());
        },
    }
    let nonce: [u8; 12] = [
        nonce_bytes[0],
        nonce_bytes[1],
        nonce_bytes[2],
        nonce_bytes[3],
        nonce_bytes[4],
        nonce_bytes[5],
        nonce_bytes[6],
        nonce_bytes[7],
        nonce_bytes[8],
        nonce_bytes[9],
        nonce_bytes[10],
        nonce_bytes[11],
    ];
    assert(nonce@ =~= nonce_bytes@);
    let aad = ascii("device-sample");
    match crypto::aes_open(keys.encryption_key().as_slice(), nonce, &aad, &ciphertext) {
        Some(sample) => Ok(sample),
        None => Err("failed to decrypt sample payload".to_owned()),
    }
}

/// A sample whose envelope was changed, or that was sealed with other keys, is
/// opened only if the signature in the envelope is the authentication code of
/// its nonce and ciphertext under these keys.
pub proof fn law_changed_sample_is_refused(
    keys: AudioCacheKeys,
    envelope: SampleEnvelope,
    nonce: Seq<u8>,
    ciphertext: Seq<u8>,
    tag: Seq<u8>,
)
    requires
        crypto::base64_bytes(envelope.nonce@) == Ok::<Seq<u8>, Seq<char>>(nonce),
        crypto::base64_bytes(envelope.ciphertext@) == Ok::<Seq<u8>, Seq<char>>(ciphertext),
        crypto::base64_bytes(envelope.signature@) == Ok::<Seq<u8>, Seq<char>>(tag),
        tag != crypto::hmac_sha256(keys.hmac@, nonce + ciphertext),
    ensures
        opened(keys, envelope) is Err,
{
}

/// A sample whose signature was changed, byte for byte of what it stands for, is
/// never opened.
pub proof fn law_sample_with_another_signature_is_refused(
    keys: AudioCacheKeys,
    envelope: SampleEnvelope,
    changed: SampleEnvelope,
)
    requires
        opened(keys, envelope) is Ok,
        changed.nonce@ == envelope.nonce@,
        changed.ciphertext@ == envelope.ciphertext@,
        crypto::base64_bytes(changed.signature@) != crypto::base64_bytes(envelope.signature@),
    ensures
        opened(keys, changed) is Err,
{
}

/// The file name of the envelope of a sample.
pub open spec fn envelope_name(token: Seq<char>) -> Seq<char> {
    if token.len() >= 5 && token.skip(token.len() - 5) == ".json"@ {
        token
    } else {
        token + ".json"@
    }
}

/// The file name of the envelope of a sample. A sample needs a token.
pub fn sample_envelope_name(token: &str) -> (r: Result<String, String>)
    ensures
        token@.len() == 0 ==> (r matches Err(e) && e@ == "sample token cannot be empty"@),
        token@.len() > 0 ==> (r matches Ok(name) && name@ == envelope_name(token@)),
{
    let chars = text::chars_of(token);
    if chars.is_empty() {
        return Err("sample token cannot be empty".to_owned());
    }
    let mut name = token.to_owned();
    let json = text::chars_of(".json");
    proof {
        reveal_strlit(".json");
    }
    let ends = if chars.len() >= 5 {
        let tail = text::copy_range(&chars, chars.len() - 5, chars.len());
        assert(tail@ =~= token@.skip(token@.len() - 5));
        text::same_text(&tail, &json)
    } else {
        false
    };
    if !ends {
        text::append_text(&mut name, ".json");
    }
    Ok(name)
}

/// A stored sample file.
#[derive(Debug, Clone, Copy, PartialEq, Eq, Structural)]
pub struct SampleFile {
    /// How long ago it was written.
    pub age_ns: u128,
    /// When it was written, in milliseconds since the epoch.
    pub modified_ms: u128,
}

/// What becomes of the stored samples, by their indices.
pub struct CleanupPlan {
    /// Those that are too old, as they are listed.
    pub expired: Vec<usize>,
    /// Those that are one too many, oldest first.
    pub evicted: Vec<usize>,
    /// Those that stay, oldest first.
    pub kept: Vec<usize>,
}

/// Whether a sample is too old to keep.
pub open spec fn is_expired(file: SampleFile) -> bool {
    file.age_ns > SAMPLE_RETENTION_NS
}

/// Whether sample `a` goes before sample `b`: it is older, or as old and listed
/// before it.
pub open spec fn goes_before(files: Seq<SampleFile>, a: int, b: int) -> bool {
    files[a].modified_ms < files[b].modified_ms || (files[a].modified_ms == files[b].modified_ms
        && a < b)
}

/// `list` holds, in their order, exactly those of the first `n` samples that are
/// not too old.
pub open spec fn is_order(files: Seq<SampleFile>, list: Seq<usize>, n: int) -> bool {
    &&& forall|k: int|
        0 <= k < list.len() ==> 0 <= #[trigger] list[k] < n && !is_expired(files[list[k] as int])
    &&& forall|k: int, l: int|
        0 <= k < l < list.len() ==> #[trigger] goes_before(
            files,
            #[trigger] list[k] as int,
            #[trigger] list[l] as int,
        )
    &&& forall|i: int|
        #![trigger files[i]]
        0 <= i < n && !is_expired(files[i]) ==> list.contains(i as usize)
}

/// A plan is right for `files` if it names exactly the expired samples, each
/// once, and of the others keeps the newest ones up to the capacity.
pub open spec fn is_cleanup(files: Seq<SampleFile>, plan: CleanupPlan) -> bool {
    &&& forall|k: int|
        0 <= k < plan.expired@.len() ==> 0 <= #[trigger] plan.expired@[k] < files.len()
            && is_expired(files[plan.expired@[k] as int])
    &&& forall|k: int, l: int|
        0 <= k < l < plan.expired@.len() ==> #[trigger] plan.expired@[k]
            < #[trigger] plan.expired@[l]
    &&& forall|i: int|
        #![trigger files[i]]
        0 <= i < files.len() && is_expired(files[i]) ==> plan.expired@.contains(i as usize)
    &&& is_order(files, plan.evicted@ + plan.kept@, files.len() as int)
    &&& plan.kept@.len() <= SAMPLE_RETENTION_CAPACITY
    &&& plan.evicted@.len() > 0 ==> plan.kept@.len() == SAMPLE_RETENTION_CAPACITY
}

fn insertion_point(files: &[SampleFile], order: &Vec<usize>, i: usize) -> (at: usize)
    requires
        i < files@.len(),
        is_order(files@, order@, i as int),
    ensures
        at <= order@.len(),
        forall|k: int|
            0 <= k < at ==> goes_before(files@, #[trigger] order@[k] as int, i as int),
        forall|k: int|
            at <= k < order@.len() ==> goes_before(files@, i as int, #[trigger] order@[k] as int),
{
    let mut at: usize = order.len();
    while at > 0 && files[i].modified_ms < files[order[at - 1]].modified_ms
        invariant
            at <= order@.len(),
            i < files@.len(),
            is_order(files@, order@, i as int),
            forall|k: int|
                at <= k < order@.len() ==> goes_before(
                    files@,
                    i as int,
                    #[trigger] order@[k] as int,
                ),
        decreases at,
    {
        at -= 1;
    }
    assert forall|k: int| 0 <= k < at implies goes_before(
        files@,
        #[trigger] order@[k] as int,
        i as int,
    ) by {
        let last = order@[at - 1] as int;
        if k < at - 1 {
            assert(goes_before(files@, order@[k] as int, order@[at - 1] as int));
        }
    }
    at
}

/// Decides which samples go: those that are too old, and of the others the
/// oldest beyond the capacity.
pub fn plan_cleanup(files: &[SampleFile]) -> (plan: CleanupPlan)
    ensures
        is_cleanup(files@, plan),
{
    let mut expired: Vec<usize> = Vec::new();
    let mut order: Vec<usize> = Vec::new();
    let mut i: usize = 0;
    while i < files.len()
        invariant
            i <= files@.len(),
            forall|k: int|
                0 <= k < expired@.len() ==> 0 <= #[trigger] expired@[k] < i && is_expired(
                    files@[expired@[k] as int],
                ),
            forall|k: int, l: int|
                0 <= k < l < expired@.len() ==> #[trigger] expired@[k] < #[trigger] expired@[l],
            forall|j: int|
                #![trigger files@[j]]
                0 <= j < i && is_expired(files@[j]) ==> expired@.contains(j as usize),
            is_order(files@, order@, i as int),
        decreases files.len() - i,
    {
        let ghost expired_before = expired@;
        let ghost before = order@;
        if files[i].age_ns > SAMPLE_RETENTION_NS {
            expired.push(i);
            proof {
                assert(expired@.contains(i)) by {
                    assert(expired@[expired@.len() - 1] == i);
                }
                assert forall|j: int|
                    #![trigger files@[j]]
                    0 <= j < i + 1 && is_expired(files@[j]) implies expired@.contains(
                    j as usize,
                ) by {
                    if j < i {
                        let k = choose|k: int|
                            0 <= k < expired_before.len() && expired_before[k] == j as usize;
                        assert(expired@[k] == j as usize);
                    }
                }
            }
        } else {
            let at = insertion_point(files, &order, i);
            order.insert(at, i);
            proof {
                lemma_inserted(files@, before, at as int, i as int);
                assert(order@ =~= before.insert(at as int, i));
            }
        }
        i += 1;
    }
    let overflow: usize = if order.len() > SAMPLE_RETENTION_CAPACITY {
        order.len() - SAMPLE_RETENTION_CAPACITY
    } else {
        0
    };
    let ghost all = order@;
    let kept = order.split_off(overflow);
    assert(order@ + kept@ =~= all);
    CleanupPlan { expired, evicted: order, kept }
}

proof fn lemma_inserted(files: Seq<SampleFile>, list: Seq<usize>, at: int, i: int)
    requires
        0 <= i < files.len(),
        i <= usize::MAX,
        !is_expired(files[i]),
        is_order(files, list, i),
        0 <= at <= list.len(),
        forall|k: int| 0 <= k < at ==> goes_before(files, #[trigger] list[k] as int, i),
        forall|k: int| at <= k < list.len() ==> goes_before(files, i, #[trigger] list[k] as int),
    ensures
        is_order(files, list.insert(at, i as usize), i + 1),
{
    let new = list.insert(at, i as usize);
    assert forall|k: int| 0 <= k < new.len() implies 0 <= #[trigger] new[k] < i + 1 && !is_expired(
        files[new[k] as int],
    ) by {
        if k < at {
            assert(new[k] == list[k]);
        } else if k > at {
            assert(new[k] == list[k - 1]);
        }
    }
    assert forall|k: int, l: int| 0 <= k < l < new.len() implies #[trigger] goes_before(
        files,
        #[trigger] new[k] as int,
        #[trigger] new[l] as int,
    ) by {
        if l < at {
            assert(new[k] == list[k] && new[l] == list[l]);
            assert(goes_before(files, list[k] as int, list[l] as int));
        } else if l == at {
            assert(new[k] == list[k]);
        } else if k < at {
            assert(new[k] == list[k] && new[l] == list[l - 1]);
            assert(goes_before(files, list[k] as int, list[l - 1] as int));
        } else if k == at {
            assert(new[l] == list[l - 1]);
        } else {
            assert(new[k] == list[k - 1] && new[l] == list[l - 1]);
            assert(goes_before(files, list[k - 1] as int, list[l - 1] as int));
        }
    }
    assert forall|j: int|
        #![trigger files[j]]
        0 <= j < i + 1 && !is_expired(files[j]) implies new.contains(j as usize) by {
        if j == i {
            assert(new[at] == i as usize);
        } else {
            assert(list.contains(j as usize));
            let k = choose|k: int| 0 <= k < list.len() && list[k] == j as usize;
            if k < at {
                assert(new[k] == j as usize);
            } else {
                assert(new[k + 1] == j as usize);
            }
        }
    }
}

/// No sample that stays is older than one that has to go to make room, and none
/// that stays is too old.
pub proof fn law_cleanup_keeps_the_newest(
    files: Seq<SampleFile>,
    plan: CleanupPlan,
    evicted: int,
    kept: int,
)
    requires
        is_cleanup(files, plan),
        0 <= evicted < plan.evicted@.len(),
        0 <= kept < plan.kept@.len(),
    ensures
        files[plan.evicted@[evicted] as int].modified_ms <= files[plan.kept@[kept] as int].modified_ms,
        !is_expired(files[plan.kept@[kept] as int]),
{
    let list = plan.evicted@ + plan.kept@;
    let l = plan.evicted@.len() + kept;
    assert(list[evicted] == plan.evicted@[evicted]);
    assert(list[l] == plan.kept@[kept]);
    assert(goes_before(files, list[evicted] as int, list[l] as int));
}

/// The count of a cleanup.
#[derive(Debug, Clone, Copy, PartialEq, Eq, Structural)]
pub struct SampleCleanupStats {
    pub removed: usize,
    pub retained: usize,
    pub errors: usize,
}

/// Whether `stats` counts a cleanup in which `failed` of the deletions of `plan`
/// failed.
pub open spec fn counts_cleanup(stats: SampleCleanupStats, plan: CleanupPlan, failed: int) -> bool {
    &&& stats.removed == plan.expired@.len() + plan.evicted@.len() - failed
    &&& stats.errors == failed
    &&& stats.retained == plan.kept@.len()
}

/// A cleanup accounts for every sample once: it is removed, it could not be
/// removed, or it stays. As many stay as are not too old, up to the capacity.
pub proof fn law_cleanup_counts_every_sample(
    files: Seq<SampleFile>,
    plan: CleanupPlan,
    failed: int,
    stats: SampleCleanupStats,
)
    requires
        files.len() <= usize::MAX,
        is_cleanup(files, plan),
        counts_cleanup(stats, plan, failed),
    ensures
        (plan.expired@ + plan.evicted@ + plan.kept@).no_duplicates(),
        stats.removed + stats.errors + stats.retained == files.len(),
        stats.retained == if files.len() - plan.expired@.len() <= SAMPLE_RETENTION_CAPACITY {
            files.len() - plan.expired@.len()
        } else {
            SAMPLE_RETENTION_CAPACITY as int
        },
{
    let order = plan.evicted@ + plan.kept@;
    let all = plan.expired@ + order;
    assert(all =~= plan.expired@ + plan.evicted@ + plan.kept@);
    let n = plan.expired@.len() as int;
    assert forall|k: int, l: int| 0 <= k < l < all.len() implies all[k] != all[l] by {
        if l < n {
            assert(plan.expired@[k] < plan.expired@[l]);
        } else if k < n {
            assert(is_expired(files[plan.expired@[k] as int]));
            assert(!is_expired(files[order[l - n] as int]));
        } else {
            assert(goes_before(files, order[k - n] as int, order[l - n] as int));
        }
    }
    let places = all.map_values(|i: usize| i as int);
    assert(places.no_duplicates());
    assert forall|i: int| places.to_set().contains(i) == set_int_range(
        0,
        files.len() as int,
    ).contains(i) by {
        if places.contains(i) {
            let k = choose|k: int| 0 <= k < places.len() && places[k] == i;
            if k < n {
                assert(plan.expired@[k] == i);
            } else {
                assert(order[k - n] == i);
            }
        }
        if 0 <= i < files.len() {
            if is_expired(files[i]) {
                let k = choose|k: int| 0 <= k < n && plan.expired@[k] == i as usize;
                assert(plan.expired@.contains(i as usize));
                assert(all[k] == i as usize);
                assert(places[k] == i as usize);
            } else {
                assert(order.contains(i as usize));
                let k = choose|k: int| 0 <= k < order.len() && order[k] == i as usize;
                assert(all[n + k] == i as usize);
                assert(places[n + k] == i as usize);
            }
        }
    }
    assert(places.to_set() =~= set_int_range(0, files.len() as int));
    places.unique_seq_to_set();
    lemma_int_range(0, files.len() as int);
}

/// The count of a cleanup in which `failed` of the deletions of `plan` failed.
pub fn cleanup_stats(plan: &CleanupPlan, failed: usize) -> (r: SampleCleanupStats)
    requires
        plan.expired@.len() + plan.evicted@.len() <= usize::MAX,
        failed <= plan.expired@.len() + plan.evicted@.len(),
    ensures
        counts_cleanup(r, *plan, failed as int),
{
    SampleCleanupStats {
        removed: plan.expired.len() + plan.evicted.len() - failed,
        retained: plan.kept.len(),
        errors: failed,
    }
}

/// A sample is too old after a day, and five are kept. The file of a sample is
/// named after its token and ends as JSON files do.
pub proof fn law_samples_last_a_day(file: SampleFile, token: Seq<char>)
    ensures
        is_expired(file) <==> file.age_ns > 24 * 3600 * 1_000_000_000,
        SAMPLE_RETENTION_CAPACITY == 5,
        ({
            let name = envelope_name(token);
            &&& name.len() >= 5 && name.skip(name.len() - 5) == ".json"@
            &&& name == token || name == token + ".json"@
            &&& name == token <==> token.len() >= 5 && token.skip(token.len() - 5) == ".json"@
        }),
{
    reveal_strlit(".json");
    let name = envelope_name(token);
    if name != token {
        assert(name.skip(name.len() - 5) =~= ".json"@);
    } else {
        assert((token + ".json"@).len() == token.len() + 5);
    }
}

/// An envelope is opened exactly when everything about it is right: its version,
/// the three texts, the length of the nonce, the signature over nonce and
/// ciphertext together, and the seal itself, for this purpose and no other.
pub proof fn law_envelope_opens_when_all_is_right(keys: AudioCacheKeys, envelope: SampleEnvelope)
    ensures
        ({
            let nonce = crypto::base64_bytes(envelope.nonce@);
            let ciphertext = crypto::base64_bytes(envelope.ciphertext@);
            let tag = crypto::base64_bytes(envelope.signature@);
            &&& opened(keys, envelope) is Ok <==> {
                &&& envelope.version == 1
                &&& nonce is Ok && ciphertext is Ok && tag is Ok
                &&& nonce->Ok_0.len() == 12
                &&& crypto::can_sign(keys.hmac@, nonce->Ok_0 + ciphertext->Ok_0)
                &&& tag->Ok_0 == crypto::hmac_sha256(keys.hmac@, nonce->Ok_0 + ciphertext->Ok_0)
                &&& crypto::aes_opened(
                    keys.encryption@,
                    nonce->Ok_0,
                    text::ascii_bytes("device-sample"@),
                    ciphertext->Ok_0,
                ) is Some
            }
            &&& opened(keys, envelope) matches Ok(sample) ==> crypto::aes_opened(
                keys.encryption@,
                nonce->Ok_0,
                text::ascii_bytes("device-sample"@),
                ciphertext->Ok_0,
            ) == Some(sample)
        }),
{
}

/// The two keys of the cache come from one secret, each for its own purpose.
pub proof fn law_keys_have_their_purposes(master: Seq<u8>)
    ensures
        derived_keys(master).0 == crypto::hkdf_sha256(
            text::ascii_bytes("flowwisper.audio.cache.salt.v1"@),
            master,
            text::ascii_bytes("flowwisper.audio.cache.enc.v1"@),
        ),
        derived_keys(master).1 == crypto::hkdf_sha256(
            text::ascii_bytes("flowwisper.audio.cache.salt.v1"@),
            master,
            text::ascii_bytes("flowwisper.audio.cache.hmac.v1"@),
        ),
{
}

/// Every fault of an envelope has words of its own.
pub proof fn law_faults_are_told_apart(version: u8, error: Seq<char>)
    ensures
        fault_message(OpenFault::Version(version)) == "unsupported sample envelope version: "@
            + text::decimal_text(version as nat),
        fault_message(OpenFault::NonceEncoding(error)) == "failed to decode sample nonce: "@ + error,
        fault_message(OpenFault::NonceLength) == "invalid sample nonce length"@,
        fault_message(OpenFault::CiphertextEncoding(error))
            == "failed to decode sample ciphertext: "@ + error,
        fault_message(OpenFault::SignatureEncoding(error)) == "failed to decode sample signature: "@
            + error,
        fault_message(OpenFault::SignatureMismatch) == "sample signature mismatch"@,
        fault_message(OpenFault::Decryption) == "failed to decrypt sample payload"@,
{
}

} // verus!
