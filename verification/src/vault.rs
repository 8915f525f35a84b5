//! The credential vault: API secrets encrypted at rest under a
//! 256-bit key with AES-GCM and a fresh random nonce per entry. The
//! vault's observable content is the map from credential id to the
//! decrypted secret; storing then retrieving an id returns the stored
//! text.

use vstd::prelude::*;
use aes_gcm::aead::{Aead, KeyInit};
use crate::assoc::{assoc_get, assoc_upsert, assoc_view, spec_contains, spec_find, unique_keys};

verus! {

/// An encrypted credential: the AES-GCM ciphertext (tag appended) and
/// the nonce it was sealed with.
#[derive(Clone, Debug)]
pub struct EncryptedCredential {
    pub encrypted_data: Vec<u8>,
    pub nonce: [u8; 12],
}

/// Vault errors.
#[derive(Clone, Debug)]
pub enum VaultError {
    EncryptionFailed(String),
    DecryptionFailed(String),
    NotFound(String),
    StorageError(String),
}

/// The AES-256-GCM ciphertext of `plaintext` (as UTF-8) under `key`
/// and `nonce`; a function of the three arguments alone.
pub uninterp spec fn aes_gcm_seal(key: Seq<u8>, nonce: Seq<u8>, plaintext: Seq<char>) -> Seq<u8>;

/// What AES-256-GCM decryption of `ciphertext` under `key` and `nonce`
/// yields as text, when authentication and UTF-8 decoding succeed; a
/// function of the three arguments alone.
pub uninterp spec fn aes_gcm_open(key: Seq<u8>, nonce: Seq<u8>, ciphertext: Seq<u8>) -> Option<
    Seq<char>,
>;

/// Relies on aes_gcm's `Aes256Gcm::encrypt`: deterministic in key,
/// nonce and plaintext; fails only on over-long input (beyond 2^36
/// bytes), so any text of at most 2^34 characters seals; and decrypting
/// the sealed bytes under the same key and nonce gives the text back.
#[verifier::external_body]
fn aes_seal(key: &[u8; 32], nonce: &[u8; 12], data: &str) -> (r: Option<Vec<u8>>)
    ensures
        r matches Some(ct) ==> ct@ == aes_gcm_seal(key@, nonce@, data@) && aes_gcm_open(
            key@,
            nonce@,
            ct@,
        ) == Some(data@),
        data@.len() <= 0x4_0000_0000 ==> r is Some,
{
    let cipher = match aes_gcm::Aes256Gcm::new_from_slice(key) {
        Ok(c) => c,
        Err(_) => {
            return None;
        },
    };
    cipher.encrypt(aes_gcm::Nonce::from_slice(nonce), data.as_bytes()).ok()
}

/// Relies on aes_gcm's `Aes256Gcm::decrypt` and std's
/// `String::from_utf8`: deterministic in key, nonce and ciphertext;
/// `None` when authentication or UTF-8 decoding fails.
#[verifier::external_body]
fn aes_open(key: &[u8; 32], nonce: &[u8; 12], ciphertext: &Vec<u8>) -> (r: Option<String>)
    ensures
        r matches Some(s) ==> aes_gcm_open(key@, nonce@, ciphertext@) == Some(s@),
        r is None ==> aes_gcm_open(key@, nonce@, ciphertext@) is None,
{
    let cipher = match aes_gcm::Aes256Gcm::new_from_slice(key) {
        Ok(c) => c,
        Err(_) => {
            return None;
        },
    };
    let decrypted = cipher.decrypt(aes_gcm::Nonce::from_slice(nonce), ciphertext.as_slice()).ok()?;
    String::from_utf8(decrypted).ok()
}

/// Relies on rand's `thread_rng().fill`: twelve bytes of randomness;
/// nothing is assumed of the values. `thread_rng` aborts if the
/// operating system's randomness source cannot initialize, an
/// environmental failure like running out of memory.
#[verifier::external_body]
fn random_nonce() -> (r: [u8; 12]) {
    let mut bytes = [0u8; 12];
    rand::Rng::fill(&mut rand::thread_rng(), &mut bytes);
    bytes
}

/// The vault.
pub struct SecureVault {
    key: [u8; 32],
    credentials: Vec<(String, EncryptedCredential)>,
}

impl SecureVault {
    /// The stored secrets, decrypted: what the vault means.
    pub closed spec fn contents(self) -> Map<Seq<char>, Seq<char>> {
        Map::new(
            |k: Seq<char>| spec_contains(self.credentials@, k),
            |k: Seq<char>|
                aes_gcm_open(
                    self.key@,
                    assoc_view(self.credentials@)[k].nonce@,
                    assoc_view(self.credentials@)[k].encrypted_data@,
                ).unwrap(),
        )
    }

    /// The vault's invariant: ids are unique and every stored entry
    /// decrypts under the vault key.
    pub closed spec fn wf(self) -> bool {
        &&& unique_keys(self.credentials@)
        &&& forall|k: Seq<char>|
            spec_contains(self.credentials@, k) ==> aes_gcm_open(
                self.key@,
                (#[trigger] assoc_view(self.credentials@)[k]).nonce@,
                assoc_view(self.credentials@)[k].encrypted_data@,
            ) is Some
    }

    /// An empty vault under the given key.
    pub fn new(key: [u8; 32]) -> (r: SecureVault)
        ensures
            r.wf(),
            r.contents() == Map::<Seq<char>, Seq<char>>::empty(),
    {
        let r = SecureVault { key, credentials: Vec::new() };
        proof {
            assert(r.contents() =~= Map::<Seq<char>, Seq<char>>::empty());
        }
        r
    }

    /// Relies on rand's `thread_rng().fill`: a fresh random 256-bit
    /// key; nothing is assumed of the values. `thread_rng` aborts if
    /// the operating system's randomness source cannot initialize, an
    /// environmental failure like running out of memory.
    #[verifier::external_body]
    pub fn generate_key() -> (r: [u8; 32]) {
        let mut key = [0u8; 32];
        rand::Rng::fill(&mut rand::thread_rng(), &mut key);
        key
    }

    /// Encrypts `data` under a fresh nonce and stores it under `id`,
    /// replacing any previous entry. Only an over-long text fails.
    pub fn store(&mut self, id: &str, data: &str) -> (r: Result<(), VaultError>)
        requires
            old(self).wf(),
        ensures
            final(self).wf(),
            r is Ok ==> final(self).contents() == old(self).contents().insert(id@, data@),
            r is Err ==> *final(self) == *old(self) && (r matches Err(e)
                && e is EncryptionFailed),
            data@.len() <= 0x4_0000_0000 ==> r is Ok,
    {
        let nonce = random_nonce();
        let ct = match aes_seal(&self.key, &nonce, data) {
            Some(ct) => ct,
            None => {
                return Err(VaultError::EncryptionFailed("encryption failed".to_owned()));
            },
        };
        let ghost old_creds = self.credentials@;
        let ghost old_contents = self.contents();
        let entry = EncryptedCredential { encrypted_data: ct, nonce };
        assoc_upsert(&mut self.credentials, id.to_owned(), entry);
        proof {
            let av0 = assoc_view(old_creds);
            let av1 = assoc_view(self.credentials@);
            assert(av1 == av0.insert(id@, entry));
            assert(av1[id@] == entry);
            assert(aes_gcm_open(self.key@, entry.nonce@, entry.encrypted_data@) == Some(data@));
            assert forall|k: Seq<char>| spec_contains(self.credentials@, k) && k != id@ implies
                spec_contains(old_creds, k) && #[trigger] av1[k] == av0[k] by {
                assert(av1.contains_key(k));
                assert(av0.contains_key(k));
            }
            assert(self.contents() =~= old_contents.insert(id@, data@));
        }
        Ok(())
    }

    /// Decrypts the entry stored under `id`; an unknown id is
    /// `NotFound`.
    pub fn retrieve(&self, id: &str) -> (r: Result<String, VaultError>)
        requires
            self.wf(),
        ensures
            self.contents().contains_key(id@) ==> (r matches Ok(s) && s@ == self.contents()[id@]),
            !self.contents().contains_key(id@) ==> (r matches Err(e) && e is NotFound),
    {
        let cred = match assoc_get(&self.credentials, id) {
            Some(c) => c,
            None => {
                return Err(VaultError::NotFound(id.to_owned()));
            },
        };
        match aes_open(&self.key, &cred.nonce, &cred.encrypted_data) {
            Some(s) => Ok(s),
            None => {
                proof {
                    assert(false);
                }
                Err(VaultError::DecryptionFailed("decryption failed".to_owned()))
            },
        }
    }

    /// Removes the entry stored under `id`; says whether one existed.
    pub fn remove(&mut self, id: &str) -> (r: bool)
        requires
            old(self).wf(),
        ensures
            final(self).wf(),
            r == old(self).contents().contains_key(id@),
            final(self).contents() == old(self).contents().remove(id@),
    {
        let ghost old_creds = self.credentials@;
        let ghost old_contents = self.contents();
        let i = crate::assoc::assoc_find(&self.credentials, id);
        if i < self.credentials.len() {
            self.credentials.remove(i);
            proof {
                crate::assoc::lemma_find_props(old_creds, id@);
                lemma_remove_entry(old_creds, self.credentials@, id@, i as int);
                let av0 = assoc_view(old_creds);
                let av2 = assoc_view(self.credentials@);
                assert forall|k: Seq<char>| spec_contains(self.credentials@, k) implies aes_gcm_open(
                    self.key@,
                    (#[trigger] av2[k]).nonce@,
                    av2[k].encrypted_data@,
                ) is Some by {
                    assert(k != id@);
                    assert(av2[k] == av0[k]);
                }
                assert(self.contents() =~= old_contents.remove(id@));
            }
            true
        } else {
            proof {
                crate::assoc::lemma_find_props(old_creds, id@);
                assert(self.contents() =~= old_contents.remove(id@));
            }
            false
        }
    }

    /// The stored ids, each exactly once.
    pub fn list_ids(&self) -> (r: Vec<String>)
        requires
            self.wf(),
        ensures
            forall|i: int, j: int| 0 <= i < j < r@.len() ==> (#[trigger] r@[i])@ != (#[trigger] r@[j])@,
            forall|k: Seq<char>|
                self.contents().contains_key(k) <==> (exists|i: int|
                    0 <= i < r@.len() && (#[trigger] r@[i])@ == k),
    {
        let mut out: Vec<String> = Vec::new();
        let n = self.credentials.len();
        let mut i: usize = 0;
        while i < n
            invariant
                i <= n,
                n == self.credentials@.len(),
                out@.len() == i,
                forall|j: int| 0 <= j < i ==> (#[trigger] out@[j])@ == self.credentials@[j].0@,
            decreases n - i,
        {
            out.push(self.credentials[i].0.clone());
            i = i + 1;
        }
        proof {
            assert forall|k: Seq<char>| self.contents().contains_key(k) implies (exists|i2: int|
                0 <= i2 < out@.len() && (#[trigger] out@[i2])@ == k) by {
                crate::assoc::lemma_find_props(self.credentials@, k);
                let f = spec_find(self.credentials@, k);
                assert(out@[f]@ == k);
            }
            assert forall|k: Seq<char>|
                (exists|i2: int| 0 <= i2 < out@.len() && (#[trigger] out@[i2])@ == k) implies self
                .contents().contains_key(k) by {
                let i2 = choose|i2: int| 0 <= i2 < out@.len() && (#[trigger] out@[i2])@ == k;
                crate::assoc::lemma_find_props(self.credentials@, k);
                if !spec_contains(self.credentials@, k) {
                    assert(self.credentials@[i2].0@ != k);
                }
            }
        }
        out
    }

    /// Empties the vault.
    pub fn clear(&mut self)
        requires
            old(self).wf(),
        ensures
            final(self).wf(),
            final(self).contents() == Map::<Seq<char>, Seq<char>>::empty(),
    {
        self.credentials.clear();
        proof {
            assert(self.contents() =~= Map::<Seq<char>, Seq<char>>::empty());
        }
    }
}

/// Removing the entry at the index where `k` sits takes exactly `k`
/// out of the denoted map.
proof fn lemma_remove_entry(
    s: Seq<(String, EncryptedCredential)>,
    s2: Seq<(String, EncryptedCredential)>,
    k: Seq<char>,
    i: int,
)
    requires
        unique_keys(s),
        0 <= i < s.len(),
        s[i].0@ == k,
        s2 == s.remove(i),
    ensures
        unique_keys(s2),
        forall|q: Seq<char>|
            q != k ==> ((spec_contains(s2, q) <==> spec_contains(s, q)) && (spec_contains(s, q)
                ==> s2[spec_find(s2, q)] == s[spec_find(s, q)])),
        !spec_contains(s2, k),
{
    crate::assoc::lemma_find_props(s, k);
    assert forall|a: int, b: int| 0 <= a < b < s2.len() implies (#[trigger] s2[a].0@)
        != (#[trigger] s2[b].0@) by {
        let a0 = if a < i {
            a
        } else {
            a + 1
        };
        let b0 = if b < i {
            b
        } else {
            b + 1
        };
        assert(s2[a] == s[a0] && s2[b] == s[b0]);
    }
    assert(!spec_contains(s2, k)) by {
        crate::assoc::lemma_find_props(s2, k);
        let f2 = spec_find(s2, k);
        if f2 < s2.len() {
            let f0 = if f2 < i {
                f2
            } else {
                f2 + 1
            };
            assert(s2[f2] == s[f0]);
            assert(s[f0].0@ == k);
            assert(f0 != i ==> false);
        }
    }
    assert forall|q: Seq<char>| q != k implies ((spec_contains(s2, q) <==> spec_contains(s, q)) && (
    spec_contains(s, q) ==> s2[spec_find(s2, q)] == s[spec_find(s, q)])) by {
        crate::assoc::lemma_find_props(s, q);
        crate::assoc::lemma_find_props(s2, q);
        let f = spec_find(s, q);
        let f2 = spec_find(s2, q);
        if f < s.len() {
            let g = if f < i {
                f
            } else {
                f - 1
            };
            assert(f != i);
            assert(s2[g] == s[f]);
            assert forall|j: int| 0 <= j < g implies (#[trigger] s2[j].0@) != q by {
                let j0 = if j < i {
                    j
                } else {
                    j + 1
                };
                assert(s2[j] == s[j0]);
                assert(j0 < f);
            }
            crate::assoc::lemma_find_at(s2, q, g);
        } else {
            if f2 < s2.len() {
                let f0 = if f2 < i {
                    f2
                } else {
                    f2 + 1
                };
                assert(s2[f2] == s[f0]);
                assert(s[f0].0@ == q);
                assert(s[f0].0@ != q);
            }
        }
    }
}

} // verus!
