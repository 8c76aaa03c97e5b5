//! Secrets: where API keys are kept, how data is encrypted at rest, and how
//! passwords are hashed.
use vstd::prelude::*;
use crate::text::{owned, append_str, str_is};
use crate::accounts::utf8_len;
use aes_gcm::aead::{Aead, KeyInit};
use argon2::password_hash::{PasswordHasher, PasswordVerifier};
use base64::Engine;
use rand::RngCore;

verus! {

/// Why a security operation failed.
#[derive(Debug)]
pub enum SecurityError {
    KeychainAccess(String),
    SecretNotFound(String),
    InvalidPin,
    HashingFailed(String),
    EncryptionFailed(String),
}

/// The message that explains `e`.
pub open spec fn security_error_text(e: SecurityError) -> Seq<char> {
    match e {
        SecurityError::KeychainAccess(m) => "Keychain access: "@ + m@,
        SecurityError::SecretNotFound(m) => "Secret not found: "@ + m@,
        SecurityError::InvalidPin => "Invalid PIN"@,
        SecurityError::HashingFailed(m) => "Hashing failed: "@ + m@,
        SecurityError::EncryptionFailed(m) => "Encryption failed: "@ + m@,
    }
}

impl SecurityError {
    /// The message that explains the failure.
    pub fn message(&self) -> (r: String)
        ensures
            r@ == security_error_text(*self),
    {
        match self {
            SecurityError::KeychainAccess(m) => {
                let mut r = owned("Keychain access: ");
                append_str(&mut r, m.as_str());
                r
            },
            SecurityError::SecretNotFound(m) => {
                let mut r = owned("Secret not found: ");
                append_str(&mut r, m.as_str());
                r
            },
            SecurityError::InvalidPin => owned("Invalid PIN"),
            SecurityError::HashingFailed(m) => {
                let mut r = owned("Hashing failed: ");
                append_str(&mut r, m.as_str());
                r
            },
            SecurityError::EncryptionFailed(m) => {
                let mut r = owned("Encryption failed: ");
                append_str(&mut r, m.as_str());
                r
            },
        }
    }
}

// ── Secret stores ──
/// A place where secrets are kept under names.
pub trait SecretStore {
    fn store(&mut self, key: &str, value: &str) -> Result<(), SecurityError>;

    fn get(&self, key: &str) -> Result<String, SecurityError>;

    fn delete(&mut self, key: &str) -> Result<(), SecurityError>;

    fn list(&self) -> Result<Vec<String>, SecurityError>;
}

/// The names in `keys` are pairwise distinct.
pub open spec fn distinct_names(keys: Seq<Seq<char>>) -> bool {
    forall|i: int, j: int| 0 <= i < j < keys.len() ==> keys[i] != keys[j]
}

/// The texts of `v`.
pub open spec fn texts(v: Seq<String>) -> Seq<Seq<char>> {
    Seq::new(v.len(), |i: int| v[i]@)
}

/// The names of `s` are pairwise distinct.
spec fn unique_names(s: Seq<(String, String)>) -> bool {
    forall|i: int, j: int| 0 <= i < j < s.len() ==> #[trigger] s[i].0@ != #[trigger] s[j].0@
}

/// The map from names to values that the list of pairs `s` holds.
spec fn map_of(s: Seq<(String, String)>) -> Map<Seq<char>, Seq<char>> {
    Map::new(
        |k: Seq<char>| exists|i: int| 0 <= i < s.len() && s[i].0@ == k,
        |k: Seq<char>| s[choose|i: int| 0 <= i < s.len() && s[i].0@ == k].1@,
    )
}

proof fn lemma_lookup_seq(s: Seq<(String, String)>, i: int)
    requires
        0 <= i < s.len(),
        unique_names(s),
    ensures
        map_of(s).dom().contains(s[i].0@),
        map_of(s)[s[i].0@] == s[i].1@,
{
    let k = s[i].0@;
    assert(map_of(s).dom().contains(k));
    let j = choose|j: int| 0 <= j < s.len() && s[j].0@ == k;
    assert(j == i) by {
        if j < i {
            assert(s[j].0@ != s[i].0@);
        } else if j > i {
            assert(s[i].0@ != s[j].0@);
        }
    }
}

/// Secrets kept in memory, for tests and for runs without an OS keychain.
pub struct MockSecretStore {
    secrets: Vec<(String, String)>,
}

impl MockSecretStore {
    /// The names under which secrets are kept, each once.
    #[verifier::type_invariant]
    spec fn keys_unique(&self) -> bool {
        unique_names(self.secrets@)
    }

    /// The secrets kept, by name.
    pub closed spec fn secrets(&self) -> Map<Seq<char>, Seq<char>> {
        map_of(self.secrets@)
    }

    /// An empty store.
    pub fn new() -> (r: MockSecretStore)
        ensures
            r.secrets() == Map::<Seq<char>, Seq<char>>::empty(),
    {
        let r = MockSecretStore { secrets: Vec::new() };
        assert(r.secrets() =~= Map::<Seq<char>, Seq<char>>::empty());
        r
    }

    fn position(&self, key: &str) -> (r: Option<usize>)
        ensures
            match r {
                Some(i) => i < self.secrets@.len() && self.secrets@[i as int].0@ == key@,
                None => forall|i: int| 0 <= i < self.secrets@.len() ==> self.secrets@[i].0@ != key@,
            },
    {
        let mut i: usize = 0;
        while i < self.secrets.len()
            invariant
                i <= self.secrets@.len(),
                forall|k: int| 0 <= k < i ==> self.secrets@[k].0@ != key@,
            decreases self.secrets@.len() - i,
        {
            if str_is(self.secrets[i].0.as_str(), key) {
                return Some(i);
            }
            i = i + 1;
        }
        None
    }
}

impl Default for MockSecretStore {
    fn default() -> (r: MockSecretStore)
        ensures
            r.secrets() == Map::<Seq<char>, Seq<char>>::empty(),
    {
        MockSecretStore::new()
    }
}

impl SecretStore for MockSecretStore {
    /// Keeps `value` under `key`, replacing what was kept there.
    fn store(&mut self, key: &str, value: &str) -> (r: Result<(), SecurityError>)
        ensures
            r is Ok,
            final(self).secrets() == old(self).secrets().insert(key@, value@),
    {
        proof {
            use_type_invariant(&*self);
        }
        let ghost before = self.secrets@;
        let pos = self.position(key);
        let mut secrets: Vec<(String, String)> = Vec::new();
        std::mem::swap(&mut secrets, &mut self.secrets);
        let ghost at: int = match pos {
            Some(i) => i as int,
            None => before.len() as int,
        };
        match pos {
            Some(i) => {
                secrets.set(i, (owned(key), owned(value)));
            },
            None => {
                secrets.push((owned(key), owned(value)));
            },
        }
        assert(unique_names(secrets@)) by {
            assert forall|a: int, b: int| 0 <= a < b < secrets@.len() implies #[trigger] secrets@[
                a].0@ != #[trigger] secrets@[b].0@ by {
                if b < before.len() {
                    assert(before[a].0@ != before[b].0@);
                }
            }
        }
        let ghost after = secrets@;
        self.secrets = secrets;
        proof {
            let m0 = map_of(before);
            let m1 = map_of(after);
            assert forall|k: Seq<char>| m1.dom().contains(k) == m0.insert(key@, value@).dom().contains(
                k,
            ) by {
                if m0.dom().contains(k) {
                    let j = choose|j: int| 0 <= j < before.len() && before[j].0@ == k;
                    assert(after[j].0@ == k);
                }
                if m1.dom().contains(k) {
                    let j = choose|j: int| 0 <= j < after.len() && after[j].0@ == k;
                    if j < before.len() && j != at {
                        assert(before[j].0@ == k);
                    }
                }
                if k == key@ {
                    assert(after[at].0@ == key@);
                }
            }
            assert(m1.dom() =~= m0.insert(key@, value@).dom());
            assert forall|k: Seq<char>| #[trigger] m1.dom().contains(k) implies m1[k] == m0.insert(
                key@,
                value@,
            )[k] by {
                let j = choose|j: int| 0 <= j < after.len() && after[j].0@ == k;
                lemma_lookup_seq(after, j);
                if k != key@ {
                    assert(j != at);
                    assert(after[j] == before[j]);
                    lemma_lookup_seq(before, j);
                } else {
                    lemma_lookup_seq(after, at);
                }
            }
            assert(m1 =~= m0.insert(key@, value@));
        }
        Ok(())
    }

    /// The secret kept under `key`.
    fn get(&self, key: &str) -> (r: Result<String, SecurityError>)
        ensures
            match r {
                Ok(v) => self.secrets().dom().contains(key@) && v@ == self.secrets()[key@],
                Err(e) => !self.secrets().dom().contains(key@) && (e matches SecurityError::SecretNotFound(
                    k,
                ) && k@ == key@),
            },
    {
        proof {
            use_type_invariant(self);
        }
        match self.position(key) {
            Some(i) => {
                proof {
                    lemma_lookup_seq(self.secrets@, i as int);
                }
                Ok(self.secrets[i].1.clone())
            },
            None => Err(SecurityError::SecretNotFound(owned(key))),
        }
    }

    /// Forgets the secret kept under `key`, if any.
    fn delete(&mut self, key: &str) -> (r: Result<(), SecurityError>)
        ensures
            r is Ok,
            final(self).secrets() == old(self).secrets().remove(key@),
    {
        proof {
            use_type_invariant(&*self);
        }
        let ghost before = self.secrets@;
        match self.position(key) {
            None => {
                assert(map_of(before) =~= map_of(before).remove(key@));
            },
            Some(i) => {
                let mut secrets: Vec<(String, String)> = Vec::new();
                std::mem::swap(&mut secrets, &mut self.secrets);
                secrets.remove(i);
                let ghost after = secrets@;
                assert(unique_names(after)) by {
                    assert forall|a: int, b: int|
                        0 <= a < b < after.len() implies #[trigger] after[a].0@
                            != #[trigger] after[b].0@ by {
                        let oa = if a < i { a } else { a + 1 };
                        let ob = if b < i { b } else { b + 1 };
                        assert(before[oa].0@ != before[ob].0@);
                    }
                }
                self.secrets = secrets;
                proof {
                    let m0 = map_of(before);
                    let m1 = map_of(after);
                    assert forall|k: Seq<char>| m1.dom().contains(k) == m0.remove(key@).dom().contains(
                        k,
                    ) by {
                        if m1.dom().contains(k) {
                            let j = choose|j: int| 0 <= j < after.len() && after[j].0@ == k;
                            let oj = if j < i { j } else { j + 1 };
                            assert(before[oj].0@ == k);
                            if oj < i {
                                assert(before[oj].0@ != before[i as int].0@);
                            } else {
                                assert(before[i as int].0@ != before[oj].0@);
                            }
                        }
                        if m0.dom().contains(k) && k != key@ {
                            let j = choose|j: int| 0 <= j < before.len() && before[j].0@ == k;
                            assert(j != i);
                            if j < i {
                                assert(after[j].0@ == k);
                            } else {
                                assert(after[j - 1].0@ == k);
                            }
                        }
                    }
                    assert(m1.dom() =~= m0.remove(key@).dom());
                    assert forall|k: Seq<char>| #[trigger] m1.dom().contains(k) implies m1[k]
                        == m0.remove(key@)[k] by {
                        let j = choose|j: int| 0 <= j < after.len() && after[j].0@ == k;
                        lemma_lookup_seq(after, j);
                        let oj = if j < i { j } else { j + 1 };
                        assert(after[j] == before[oj]);
                        lemma_lookup_seq(before, oj);
                    }
                    assert(m1 =~= m0.remove(key@));
                }
            },
        }
        Ok(())
    }

    /// The names under which secrets are kept, each once.
    fn list(&self) -> (r: Result<Vec<String>, SecurityError>)
        ensures
            r matches Ok(keys) && distinct_names(texts(keys@)) && texts(keys@).to_set()
                == self.secrets().dom(),
    {
        proof {
            use_type_invariant(self);
        }
        let mut keys: Vec<String> = Vec::new();
        let mut i: usize = 0;
        while i < self.secrets.len()
            invariant
                i <= self.secrets@.len(),
                keys@.len() == i,
                forall|a: int, b: int|
                    0 <= a < b < self.secrets@.len() ==> #[trigger] self.secrets@[a].0@
                        != #[trigger] self.secrets@[b].0@,
                forall|k: int| 0 <= k < i ==> #[trigger] keys@[k]@ == self.secrets@[k].0@,
            decreases self.secrets@.len() - i,
        {
            keys.push(self.secrets[i].0.clone());
            i = i + 1;
        }
        assert(distinct_names(texts(keys@))) by {
            assert forall|a: int, b: int| 0 <= a < b < texts(keys@).len() implies texts(keys@)[a]
                != texts(keys@)[b] by {
                assert(keys@[a]@ == self.secrets@[a].0@);
                assert(keys@[b]@ == self.secrets@[b].0@);
            }
        }
        assert(texts(keys@).to_set() =~= self.secrets().dom()) by {
            assert forall|k: Seq<char>| texts(keys@).to_set().contains(k) == self.secrets().dom().contains(
                k,
            ) by {
                if texts(keys@).to_set().contains(k) {
                    let j = choose|j: int| 0 <= j < texts(keys@).len() && texts(keys@)[j] == k;
                    assert(self.secrets@[j].0@ == k);
                }
                if self.secrets().dom().contains(k) {
                    let j = choose|j: int| 0 <= j < self.secrets@.len() && self.secrets@[j].0@ == k;
                    assert(texts(keys@)[j] == k);
                }
            }
        }
        Ok(keys)
    }
}

/// What is read under a name just after a value was stored there is that value,
/// and storing under one name leaves what is kept under the others as it was.
pub proof fn law_store_then_get(
    secrets: Map<Seq<char>, Seq<char>>,
    key: Seq<char>,
    value: Seq<char>,
    other: Seq<char>,
)
    requires
        other != key,
    ensures
        secrets.insert(key, value).dom().contains(key),
        secrets.insert(key, value)[key] == value,
        secrets.insert(key, value).dom().contains(other) == secrets.dom().contains(other),
        secrets.dom().contains(other) ==> secrets.insert(key, value)[other] == secrets[other],
{
}

/// After a delete, nothing is found under the deleted name.
pub proof fn law_delete_then_get(secrets: Map<Seq<char>, Seq<char>>, key: Seq<char>)
    ensures
        !secrets.remove(key).dom().contains(key),
{
}

// ── Encryption at rest ──
#[verifier::external_type_specification]
#[verifier::external_body]
pub struct ExAeadError(aes_gcm::Error);

#[verifier::external_type_specification]
#[verifier::external_body]
pub struct ExDecodeError(base64::DecodeError);

/// The ciphertext (with its tag) that AES-256-GCM makes of `plaintext` under
/// `key` and `nonce`.
pub uninterp spec fn aes_gcm_seal(key: Seq<u8>, nonce: Seq<u8>, plaintext: Seq<u8>) -> Seq<u8>;

/// The plaintext that AES-256-GCM recovers from `ciphertext` under `key` and
/// `nonce`, if the ciphertext is authentic.
pub uninterp spec fn aes_gcm_open(key: Seq<u8>, nonce: Seq<u8>, ciphertext: Seq<u8>) -> Option<
    Seq<u8>,
>;

/// The standard, padded base64 text of `bytes`.
pub uninterp spec fn base64_text(bytes: Seq<u8>) -> Seq<char>;

/// The bytes that a standard base64 text stands for, if it is valid.
pub uninterp spec fn base64_bytes(text: Seq<char>) -> Option<Seq<u8>>;

/// Twelve bytes from the thread's random generator (`RngCore::fill_bytes` of
/// `rand::thread_rng`); nothing is claimed of their values.
#[verifier::external_body]
fn random_nonce() -> (r: Vec<u8>)
    ensures
        r@.len() == 12,
{
    let mut bytes = vec![0u8; 12];
    rand::thread_rng().fill_bytes(&mut bytes);
    bytes
}

/// The longest plaintext, in bytes, that AES-GCM encrypts (2^36).
pub const AES_GCM_MAX_PLAINTEXT: u64 = 0x10_0000_0000;

/// `Aead::encrypt` of `Aes256Gcm` with a 32-byte key and a 12-byte nonce. It
/// refuses only a plaintext longer than 2^36 bytes. The ciphertext carries a
/// 16-byte tag, and decrypting it under the same key and nonce gives the
/// plaintext back.
#[verifier::external_body]
fn aes_seal(key: &[u8; 32], nonce: &[u8], plaintext: &[u8]) -> (r: Result<Vec<u8>, aes_gcm::Error>)
    requires
        nonce@.len() == 12,
    ensures
        plaintext@.len() <= AES_GCM_MAX_PLAINTEXT ==> r is Ok,
        r matches Ok(c) ==> c@ == aes_gcm_seal(key@, nonce@, plaintext@) && c@.len()
            == plaintext@.len() + 16 && aes_gcm_open(key@, nonce@, c@) == Some(plaintext@),
{
    let cipher = aes_gcm::Aes256Gcm::new(aes_gcm::Key::<aes_gcm::Aes256Gcm>::from_slice(key));
    cipher.encrypt(aes_gcm::Nonce::from_slice(nonce), plaintext)
}

/// `Aead::decrypt` of `Aes256Gcm` with a 32-byte key and a 12-byte nonce: the
/// plaintext of an authentic ciphertext, an error otherwise.
#[verifier::external_body]
fn aes_open(key: &[u8; 32], nonce: &[u8], ciphertext: &[u8]) -> (r: Result<Vec<u8>, aes_gcm::Error>)
    requires
        nonce@.len() == 12,
    ensures
        match r {
            Ok(p) => aes_gcm_open(key@, nonce@, ciphertext@) == Some(p@),
            Err(_) => aes_gcm_open(key@, nonce@, ciphertext@) is None,
        },
{
    let cipher = aes_gcm::Aes256Gcm::new(aes_gcm::Key::<aes_gcm::Aes256Gcm>::from_slice(key));
    cipher.decrypt(aes_gcm::Nonce::from_slice(nonce), ciphertext)
}

/// The `Display` text of `aead::Error`, which is always `aead::Error`.
#[verifier::external_body]
fn aead_error_text(e: &aes_gcm::Error) -> (r: String)
    ensures
        r@ == "aead::Error"@,
{
    e.to_string()
}

/// `Engine::encode` of the standard base64 engine; decoding the text gives the
/// bytes back.
#[verifier::external_body]
pub(crate) fn base64_encode(bytes: &[u8]) -> (r: String)
    ensures
        r@ == base64_text(bytes@),
        base64_bytes(r@) == Some(bytes@),
{
    base64::engine::general_purpose::STANDARD.encode(bytes)
}

/// `Engine::decode` of the standard base64 engine.
#[verifier::external_body]
fn base64_decode(text: &str) -> (r: Result<Vec<u8>, base64::DecodeError>)
    ensures
        match r {
            Ok(b) => base64_bytes(text@) == Some(b@),
            Err(_) => base64_bytes(text@) is None,
        },
{
    base64::engine::general_purpose::STANDARD.decode(text)
}

/// The `Display` text of a base64 decoding error.
#[verifier::external_body]
fn decode_error_text(e: &base64::DecodeError) -> (r: String) {
    e.to_string()
}

/// The text that `encrypt` produces with `nonce`: base64 of the nonce followed
/// by the ciphertext.
pub open spec fn sealed_text(key: Seq<u8>, nonce: Seq<u8>, plaintext: Seq<u8>) -> Seq<char> {
    base64_text(nonce + aes_gcm_seal(key, nonce, plaintext))
}

/// What `decrypt` recovers from `text` under `key`: the base64 bytes split
/// into a 12-byte nonce and at least one byte of ciphertext, then opened.
pub open spec fn opened(key: Seq<u8>, text: Seq<char>) -> Option<Seq<u8>> {
    match base64_bytes(text) {
        Some(b) => if b.len() < 13 {
            None
        } else {
            aes_gcm_open(key, b.take(12), b.skip(12))
        },
        None => None,
    }
}

/// `text` is what `encrypt` may give for `plaintext` under `key`: the sealed
/// text under some 12-byte nonce, which opens back to the plaintext.
pub open spec fn encrypted_as(key: Seq<u8>, plaintext: Seq<u8>, text: Seq<char>) -> bool {
    &&& exists|n: Seq<u8>| n.len() == 12 && text == sealed_text(key, n, plaintext)
    &&& opened(key, text) == Some(plaintext)
}

/// `r` is what `decrypt` may give for `text` under `key`: the bytes the text
/// opens to, or a failure where it opens to none.
pub open spec fn decrypted_as(key: Seq<u8>, text: Seq<char>, r: Option<Seq<u8>>) -> bool {
    r == opened(key, text)
}

/// Decrypting, under the same key, a text that encrypting produced gives
/// the plaintext back.
pub proof fn law_decrypt_undoes_encrypt(
    key: Seq<u8>,
    plaintext: Seq<u8>,
    text: Seq<char>,
    recovered: Option<Seq<u8>>,
)
    requires
        encrypted_as(key, plaintext, text),
        decrypted_as(key, text, recovered),
    ensures
        recovered == Some(plaintext),
{
}

/// Encrypts with AES-256-GCM under a fresh random nonce; the result is the
/// base64 text of the nonce followed by the ciphertext, and it decrypts back
/// to the plaintext.
pub fn encrypt(key: &[u8; 32], plaintext: &[u8]) -> (r: Result<String, SecurityError>)
    ensures
        plaintext@.len() <= AES_GCM_MAX_PLAINTEXT ==> r is Ok,
        match r {
            Ok(t) => encrypted_as(key@, plaintext@, t@),
            Err(e) => (e matches SecurityError::EncryptionFailed(m) && m@ == "aead::Error"@),
        },
{
    let nonce = random_nonce();
    match aes_seal(key, nonce.as_slice(), plaintext) {
        Err(e) => Err(SecurityError::EncryptionFailed(aead_error_text(&e))),
        Ok(ciphertext) => {
            let mut combined: Vec<u8> = Vec::new();
            let mut i: usize = 0;
            while i < nonce.len()
                invariant
                    i <= nonce@.len(),
                    combined@ == nonce@.take(i as int),
                decreases nonce@.len() - i,
            {
                combined.push(nonce[i]);
                assert(combined@ =~= nonce@.take(i + 1));
                i = i + 1;
            }
            let mut k: usize = 0;
            while k < ciphertext.len()
                invariant
                    k <= ciphertext@.len(),
                    combined@ == nonce@ + ciphertext@.take(k as int),
                decreases ciphertext@.len() - k,
            {
                combined.push(ciphertext[k]);
                assert(combined@ =~= nonce@ + ciphertext@.take(k + 1));
                k = k + 1;
            }
            assert(nonce@.take(12) =~= nonce@);
            assert(ciphertext@.take(ciphertext@.len() as int) =~= ciphertext@);
            assert(combined@.take(12) =~= nonce@);
            assert(combined@.skip(12) =~= ciphertext@);
            let t = base64_encode(&combined);
            assert(t@ == sealed_text(key@, nonce@, plaintext@));
            Ok(t)
        },
    }
}

/// Decrypts a text made by `encrypt`.
pub fn decrypt(key: &[u8; 32], encoded: &str) -> (r: Result<Vec<u8>, SecurityError>)
    ensures
        decrypted_as(
            key@,
            encoded@,
            match r {
                Ok(p) => Some(p@),
                Err(_) => None,
            },
        ),
        r matches Err(e) ==> e is EncryptionFailed,
        (base64_bytes(encoded@) matches Some(b) && b.len() < 13) ==> (r matches Err(
            SecurityError::EncryptionFailed(m),
        ) && m@ == "Data too short"@),
{
    let combined = match base64_decode(encoded) {
        Ok(b) => b,
        Err(e) => {
            return Err(SecurityError::EncryptionFailed(decode_error_text(&e)));
        },
    };
    if combined.len() < 13 {
        return Err(SecurityError::EncryptionFailed(owned("Data too short")));
    }
    let mut nonce: Vec<u8> = Vec::new();
    let mut i: usize = 0;
    while i < 12
        invariant
            i <= 12,
            12 < combined@.len(),
            nonce@ == combined@.take(i as int),
        decreases 12 - i,
    {
        nonce.push(combined[i]);
        assert(nonce@ =~= combined@.take(i + 1));
        i = i + 1;
    }
    let mut ciphertext: Vec<u8> = Vec::new();
    let mut k: usize = 12;
    while k < combined.len()
        invariant
            12 <= k <= combined@.len(),
            ciphertext@ == combined@.subrange(12, k as int),
        decreases combined@.len() - k,
    {
        ciphertext.push(combined[k]);
        assert(ciphertext@ =~= combined@.subrange(12, k + 1));
        k = k + 1;
    }
    assert(ciphertext@ =~= combined@.skip(12));
    match aes_open(key, nonce.as_slice(), ciphertext.as_slice()) {
        Ok(p) => Ok(p),
        Err(e) => Err(SecurityError::EncryptionFailed(aead_error_text(&e))),
    }
}

// ── Password hashing ──
#[verifier::external_type_specification]
#[verifier::external_body]
pub struct ExPasswordHashError(argon2::password_hash::Error);

/// The PHC string of the Argon2id hash (version 0x13) of `password` with the
/// base64 salt `salt`, using `memory_kib` KiB of memory, `passes` passes and
/// `lanes` lanes.
pub uninterp spec fn argon2id_phc(
    password: Seq<char>,
    salt: Seq<char>,
    memory_kib: u32,
    passes: u32,
    lanes: u32,
) -> Seq<char>;

/// The memory, in KiB, that hashing a password takes.
pub const ARGON2_MEMORY_KIB: u32 = 65536;

/// The passes that hashing a password makes over its memory.
pub const ARGON2_PASSES: u32 = 3;

/// The lanes in which a password is hashed.
pub const ARGON2_LANES: u32 = 4;

/// Whether `password` matches the PHC hash string `phc`, or `None` where
/// `phc` is no valid PHC string.
pub uninterp spec fn phc_verify(password: Seq<char>, phc: Seq<char>) -> Option<bool>;

/// A standard base64 character.
pub open spec fn b64_char(c: char) -> bool {
    ('A' <= c && c <= 'Z') || ('a' <= c && c <= 'z') || ('0' <= c && c <= '9') || c == '+' || c
        == '/'
}

/// `s` is sixteen bytes in standard base64 without padding: twenty-two
/// characters, the last of which carries two bits and four zero bits.
pub open spec fn salt_text(s: Seq<char>) -> bool {
    &&& s.len() == 22
    &&& forall|i: int| 0 <= i < 21 ==> b64_char(#[trigger] s[i])
    &&& (s[21] == 'A' || s[21] == 'Q' || s[21] == 'g' || s[21] == 'w')
}

/// Argon2 accepts these parameters: at least one pass, between 1 and
/// 2^24 - 1 lanes, and at least 8 KiB of memory per lane.
pub open spec fn argon2_params_ok(memory_kib: u32, passes: u32, lanes: u32) -> bool {
    &&& 1 <= passes
    &&& 1 <= lanes <= 0xFF_FFFF
    &&& memory_kib >= 8 * lanes
}

/// The longest password, in bytes, that Argon2 hashes (2^32 - 1).
pub const ARGON2_MAX_PASSWORD: u64 = 0xFFFF_FFFF;

/// `SaltString::generate` with the operating system's random source (which
/// panics only if that source fails): sixteen random bytes in base64 without
/// padding; nothing is claimed of their value.
#[verifier::external_body]
fn random_salt() -> (r: String)
    ensures
        salt_text(r@),
{
    let salt = argon2::password_hash::SaltString::generate(
        &mut argon2::password_hash::rand_core::OsRng,
    );
    salt.as_str().to_string()
}

/// `PasswordHasher::hash_password` of Argon2id (version 0x13) with the base64
/// salt `salt` and the parameters given (`Params::new`, which refuses
/// parameters out of range), as a PHC string. It succeeds for a salt of
/// sixteen bytes, parameters in range and a password of at most 2^32 - 1
/// bytes. The hash verifies against the password it was made from.
#[verifier::external_body]
fn argon2id_hash(password: &str, salt: &str, memory_kib: u32, passes: u32, lanes: u32) -> (r: Result<
    String,
    argon2::password_hash::Error,
>)
    requires
        lanes <= 0x1FFF_FFFF,
    ensures
        salt_text(salt@) && argon2_params_ok(memory_kib, passes, lanes) && utf8_len(password@)
            <= ARGON2_MAX_PASSWORD ==> r is Ok,
        r matches Ok(h) ==> h@ == argon2id_phc(password@, salt@, memory_kib, passes, lanes)
            && phc_verify(password@, h@) == Some(true),
{
    let salt = argon2::password_hash::SaltString::from_b64(salt)?;
    let params = match argon2::Params::new(memory_kib, passes, lanes, None) {
        Ok(p) => p,
        Err(e) => return Err(e.into()),
    };
    let hasher = argon2::Argon2::new(argon2::Algorithm::Argon2id, argon2::Version::V0x13, params);
    hasher.hash_password(password.as_bytes(), &salt).map(|h| h.to_string())
}

/// `PasswordVerifier::verify_password` of the default Argon2 against a PHC
/// string parsed by `PasswordHash::new`; an error where the string does not parse.
#[verifier::external_body]
fn phc_check(password: &str, phc: &str) -> (r: Result<bool, argon2::password_hash::Error>)
    ensures
        match r {
            Ok(b) => phc_verify(password@, phc@) == Some(b),
            Err(_) => phc_verify(password@, phc@) is None,
        },
{
    let parsed = argon2::password_hash::PasswordHash::new(phc)?;
    Ok(argon2::Argon2::default().verify_password(password.as_bytes(), &parsed).is_ok())
}

/// The `Display` text of a password-hashing error.
#[verifier::external_body]
fn hash_error_text(e: &argon2::password_hash::Error) -> (r: String) {
    e.to_string()
}

/// Hashes passwords and PINs, and checks them against stored hashes.
pub struct PinManager;

impl PinManager {
    /// The Argon2id PHC string of `password` under a fresh random salt; it
    /// verifies against `password`.
    pub fn hash_password(password: &str) -> (r: Result<String, SecurityError>)
        ensures
            utf8_len(password@) <= ARGON2_MAX_PASSWORD ==> r is Ok,
            match r {
                Ok(h) => phc_verify(password@, h@) == Some(true) && exists|salt: Seq<char>|
                    h@ == argon2id_phc(
                        password@,
                        salt,
                        ARGON2_MEMORY_KIB,
                        ARGON2_PASSES,
                        ARGON2_LANES,
                    ),
                Err(e) => e is HashingFailed,
            },
    {
        let salt = random_salt();
        match argon2id_hash(password, salt.as_str(), ARGON2_MEMORY_KIB, ARGON2_PASSES, ARGON2_LANES) {
            Ok(h) => Ok(h),
            Err(e) => Err(SecurityError::HashingFailed(hash_error_text(&e))),
        }
    }

    /// Whether `password` matches the stored PHC string `hash`.
    pub fn verify_password(password: &str, hash: &str) -> (r: Result<bool, SecurityError>)
        ensures
            match phc_verify(password@, hash@) {
                Some(b) => r == Ok::<bool, SecurityError>(b),
                None => r matches Err(SecurityError::HashingFailed(_)),
            },
    {
        match phc_check(password, hash) {
            Ok(b) => Ok(b),
            Err(e) => Err(SecurityError::HashingFailed(hash_error_text(&e))),
        }
    }
}

// ── The operating system's keychain ──
#[verifier::external_type_specification]
#[verifier::external_body]
pub struct ExKeyringEntry(keyring::Entry);

#[verifier::external_type_specification]
#[verifier::external_body]
pub struct ExKeyringError(keyring::Error);

/// `keyring::Entry::new`: the keychain entry of `user` under `service`. The
/// platform store decides whether the names are valid; nothing is claimed.
#[verifier::external_body]
fn keyring_entry(service: &str, user: &str) -> (r: Result<keyring::Entry, keyring::Error>) {
    keyring::Entry::new(service, user)
}

/// `Entry::set_password`: the platform store keeps the password or fails.
#[verifier::external_body]
fn entry_set_password(entry: &keyring::Entry, password: &str) -> (r: Result<(), keyring::Error>) {
    entry.set_password(password)
}

/// `Entry::get_password`: what the platform store holds for the entry, if it
/// holds anything; nothing is claimed of the text.
#[verifier::external_body]
fn entry_get_password(entry: &keyring::Entry) -> (r: Result<String, keyring::Error>) {
    entry.get_password()
}

/// `Entry::delete_credential`: the platform store forgets the entry or fails.
#[verifier::external_body]
fn entry_delete(entry: &keyring::Entry) -> (r: Result<(), keyring::Error>) {
    entry.delete_credential()
}

/// The `Display` text of a keychain error.
#[verifier::external_body]
fn keyring_error_text(e: &keyring::Error) -> (r: String) {
    e.to_string()
}

/// Secrets kept in the operating system's keychain under one service name.
/// The keychain cannot list what it holds, so the names stored through this
/// manager are tracked beside it.
pub struct KeychainManager {
    service: String,
    stored_keys: Vec<String>,
}

impl KeychainManager {
    /// The service name under which secrets are kept.
    pub closed spec fn service(&self) -> Seq<char> {
        self.service@
    }

    /// The names stored through this manager and not deleted since.
    pub closed spec fn tracked_keys(&self) -> Seq<Seq<char>> {
        texts(self.stored_keys@)
    }

    pub fn new(service: &str) -> (r: KeychainManager)
        ensures
            r.service() == service@,
            r.tracked_keys() == Seq::<Seq<char>>::empty(),
    {
        let r = KeychainManager { service: owned(service), stored_keys: Vec::new() };
        assert(r.tracked_keys() =~= Seq::<Seq<char>>::empty());
        r
    }

    /// The names under which the keychain keeps the secret `key`: this
    /// manager's service, and `key` as the user name.
    pub fn entry_target(&self, key: &str) -> (r: (String, String))
        ensures
            r.0@ == self.service(),
            r.1@ == key@,
    {
        (self.service.clone(), owned(key))
    }

    /// The keychain entry of the secret `key`.
    fn entry(&self, key: &str) -> (r: Result<keyring::Entry, SecurityError>)
        ensures
            r matches Err(e) ==> e is KeychainAccess,
    {
        let (service, user) = self.entry_target(key);
        match keyring_entry(service.as_str(), user.as_str()) {
            Ok(entry) => Ok(entry),
            Err(e) => Err(SecurityError::KeychainAccess(keyring_error_text(&e))),
        }
    }
}

impl SecretStore for KeychainManager {
    /// Keeps `value` in the keychain under `key`, and tracks the name once.
    fn store(&mut self, key: &str, value: &str) -> (r: Result<(), SecurityError>)
        ensures
            final(self).service() == old(self).service(),
            r is Ok ==> final(self).tracked_keys() == if old(self).tracked_keys().contains(key@) {
                old(self).tracked_keys()
            } else {
                old(self).tracked_keys().push(key@)
            },
            r matches Err(e) ==> e is KeychainAccess && final(self).tracked_keys() == old(
                self,
            ).tracked_keys(),
    {
        let entry = self.entry(key)?;
        match entry_set_password(&entry, value) {
            Ok(()) => {},
            Err(e) => {
                return Err(SecurityError::KeychainAccess(keyring_error_text(&e)));
            },
        }
        let mut i: usize = 0;
        while i < self.stored_keys.len()
            invariant
                i <= self.stored_keys@.len(),
                forall|k: int| 0 <= k < i ==> self.stored_keys@[k]@ != key@,
            decreases self.stored_keys@.len() - i,
        {
            if str_is(self.stored_keys[i].as_str(), key) {
                assert(self.tracked_keys()[i as int] == key@);
                return Ok(());
            }
            i = i + 1;
        }
        assert(!self.tracked_keys().contains(key@)) by {
            assert forall|k: int| 0 <= k < self.tracked_keys().len() implies self.tracked_keys()[k]
                != key@ by {
                assert(self.stored_keys@[k]@ != key@);
            }
        }
        self.stored_keys.push(owned(key));
        assert(self.tracked_keys() =~= old(self).tracked_keys().push(key@));
        Ok(())
    }

    /// What the keychain holds under `key`; a failure to read is reported as
    /// the secret not being found, with the name and the keychain's reason.
    fn get(&self, key: &str) -> (r: Result<String, SecurityError>)
        ensures
            r matches Err(e) ==> (e is KeychainAccess || (e matches SecurityError::SecretNotFound(m)
                && m@.len() >= key@.len() + 2 && m@.take(key@.len() as int + 2) == key@ + ": "@)),
    {
        let entry = self.entry(key)?;
        match entry_get_password(&entry) {
            Ok(v) => Ok(v),
            Err(e) => {
                let mut m = owned(key);
                append_str(&mut m, ": ");
                proof {
                    reveal_strlit(": ");
                }
                let ghost prefix = m@;
                append_str(&mut m, keyring_error_text(&e).as_str());
                assert(m@.take(key@.len() as int + 2) =~= prefix);
                Err(SecurityError::SecretNotFound(m))
            },
        }
    }

    /// Removes `key` from the keychain and stops tracking it.
    fn delete(&mut self, key: &str) -> (r: Result<(), SecurityError>)
        ensures
            final(self).service() == old(self).service(),
            r is Ok ==> final(self).tracked_keys() == old(self).tracked_keys().filter(
                |k: Seq<char>| k != key@,
            ),
            r matches Err(e) ==> e is KeychainAccess && final(self).tracked_keys() == old(
                self,
            ).tracked_keys(),
    {
        let entry = self.entry(key)?;
        match entry_delete(&entry) {
            Ok(()) => {},
            Err(e) => {
                return Err(SecurityError::KeychainAccess(keyring_error_text(&e)));
            },
        }
        let ghost old_keys = self.tracked_keys();
        let mut kept: Vec<String> = Vec::new();
        let mut i: usize = 0;
        while i < self.stored_keys.len()
            invariant
                i <= self.stored_keys@.len(),
                old_keys == texts(self.stored_keys@),
                texts(kept@) == old_keys.take(i as int).filter(|k: Seq<char>| k != key@),
            decreases self.stored_keys@.len() - i,
        {
            let ghost before = kept@;
            proof {
                reveal(Seq::filter);
            }
            assert(old_keys.take(i + 1).drop_last() =~= old_keys.take(i as int));
            assert(old_keys.take(i + 1).last() == old_keys[i as int]);
            if !str_is(self.stored_keys[i].as_str(), key) {
                kept.push(self.stored_keys[i].clone());
                assert(texts(kept@) =~= texts(before).push(old_keys[i as int]));
            } else {
                assert(texts(kept@) =~= texts(before));
            }
            i = i + 1;
        }
        assert(old_keys.take(old_keys.len() as int) =~= old_keys);
        self.stored_keys = kept;
        Ok(())
    }

    /// The names stored through this manager and not deleted since.
    fn list(&self) -> (r: Result<Vec<String>, SecurityError>)
        ensures
            r matches Ok(keys) && texts(keys@) == self.tracked_keys(),
    {
        let mut keys: Vec<String> = Vec::new();
        let mut i: usize = 0;
        while i < self.stored_keys.len()
            invariant
                i <= self.stored_keys@.len(),
                keys@.len() == i,
                forall|k: int| 0 <= k < i ==> #[trigger] keys@[k]@ == self.stored_keys@[k]@,
            decreases self.stored_keys@.len() - i,
        {
            keys.push(self.stored_keys[i].clone());
            i = i + 1;
        }
        assert(texts(keys@) =~= self.tracked_keys());
        Ok(keys)
    }
}

} // verus!
