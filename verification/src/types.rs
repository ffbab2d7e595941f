//! The record store: TOTP credential records, the name-to-record dictionary,
//! and the encrypted-file blob layout (24-byte nonce prefix, then the sealed
//! record data).

use vstd::prelude::*;

use crate::chacha::{
    self, decrypt_data, encrypt_data, make_nonce, xchacha_open, xchacha_seal, Key, NONCE_LEN,
};
use crate::error::{name_not_found, Error, ErrorKind, Result};
use crate::otp::{be_bytes_of_u64, code_chars, Algo};

verus! {

/// Default algorithm when a stored record does not name one.
pub fn default_algo() -> (r: Algo)
    ensures
        r == Algo::SHA1,
{
    Algo::SHA1
}

/// Default digit count when a stored record does not give one.
pub fn default_digits() -> (r: u32)
    ensures
        r == 6,
{
    6
}

/// Default step when a stored record does not give one.
pub fn default_step() -> (r: u64)
    ensures
        r == 30,
{
    30
}

/// A TOTP credential.
///
/// Secret, algo, digits and step are what code generation needs; issuer and
/// username only help to identify the record.
#[derive(Debug, Clone)]
pub struct TotpRecord {
    pub secret: Vec<u8>,
    pub algo: Algo,
    pub digits: u32,
    pub step: u64,
    pub issuer: Option<String>,
    pub username: Option<String>,
}

/// The record that a set of edits turns an existing record into: each field
/// with a given replacement takes it, every other field keeps its value.
pub open spec fn edited_record(
    rec: TotpRecord,
    secret: Option<Vec<u8>>,
    algo: Option<Algo>,
    digits: Option<u32>,
    step: Option<u64>,
    issuer: Option<String>,
    username: Option<String>,
) -> TotpRecord {
    TotpRecord {
        secret: if secret is Some {
            secret.unwrap()
        } else {
            rec.secret
        },
        algo: if algo is Some {
            algo.unwrap()
        } else {
            rec.algo
        },
        digits: if digits is Some {
            digits.unwrap()
        } else {
            rec.digits
        },
        step: if step is Some {
            step.unwrap()
        } else {
            rec.step
        },
        issuer: if issuer is Some {
            issuer
        } else {
            rec.issuer
        },
        username: if username is Some {
            username
        } else {
            rec.username
        },
    }
}

impl TotpRecord {
    /// Builds a record from optional parts, as a parsed store supplies them:
    /// the secret is mandatory, `algo`, `digits` and `step` fall back to
    /// `SHA1`, `6` and `30` when omitted, issuer and username stay optional.
    pub fn from_parts(
        secret: Option<Vec<u8>>,
        algo: Option<Algo>,
        digits: Option<u32>,
        step: Option<u64>,
        issuer: Option<String>,
        username: Option<String>,
    ) -> (r: Option<TotpRecord>)
        ensures
            r is Some <==> secret is Some,
            r matches Some(rec) ==> {
                &&& rec.secret == secret.unwrap()
                &&& rec.algo == (if algo is Some {
                    algo.unwrap()
                } else {
                    Algo::SHA1
                })
                &&& rec.digits == (if digits is Some {
                    digits.unwrap()
                } else {
                    6u32
                })
                &&& rec.step == (if step is Some {
                    step.unwrap()
                } else {
                    30u64
                })
                &&& rec.issuer == issuer
                &&& rec.username == username
            },
    {
        match secret {
            Some(secret) => Some(
                TotpRecord {
                    secret,
                    algo: match algo {
                        Some(a) => a,
                        None => default_algo(),
                    },
                    digits: match digits {
                        Some(d) => d,
                        None => default_digits(),
                    },
                    step: match step {
                        Some(t) => t,
                        None => default_step(),
                    },
                    issuer,
                    username,
                },
            ),
            None => None,
        }
    }

    /// Applies a set of optional edits in place: each field with a given
    /// replacement takes it, every other field keeps its value.
    pub fn apply_edits(
        &mut self,
        secret: Option<Vec<u8>>,
        algo: Option<Algo>,
        digits: Option<u32>,
        step: Option<u64>,
        issuer: Option<String>,
        username: Option<String>,
    )
        ensures
            *final(self) == edited_record(
                *old(self),
                secret,
                algo,
                digits,
                step,
                issuer,
                username,
            ),
    {
        if let Some(s) = secret {
            self.secret = s;
        }
        if let Some(a) = algo {
            self.algo = a;
        }
        if let Some(d) = digits {
            self.digits = d;
        }
        if let Some(t) = step {
            self.step = t;
        }
        if issuer.is_some() {
            self.issuer = issuer;
        }
        if username.is_some() {
            self.username = username;
        }
    }

    /// The live code for this record at the given time, with the seconds
    /// until the current step window closes.
    pub fn generate_code(&self, now: u64) -> (r: (String, u64))
        requires
            self.step > 0,
            self.digits <= 19,
        ensures
            r.0@ == code_chars(
                self.algo,
                self.secret@,
                self.digits as nat,
                be_bytes_of_u64(now / self.step),
            ),
            r.1 == self.step - now % self.step,
    {
        let code = crate::otp::_totp(&self.algo, self.secret.as_slice(), self.digits, self.step, now);
        let remaining = self.step - now % self.step;
        (code, remaining)
    }
}

/// No two entries share a name.
pub open spec fn unique_keys(entries: Seq<(String, TotpRecord)>) -> bool {
    forall|i: int, j: int|
        0 <= i < j < entries.len() ==> entries[i].0@ != entries[j].0@
}

/// Whether some entry has the given name.
pub open spec fn seq_has_key(entries: Seq<(String, TotpRecord)>, name: Seq<char>) -> bool {
    exists|i: int| 0 <= i < entries.len() && entries[i].0@ == name
}

/// The record of the entry with the given name.
pub open spec fn seq_get(entries: Seq<(String, TotpRecord)>, name: Seq<char>) -> TotpRecord {
    entries[choose|i: int| 0 <= i < entries.len() && entries[i].0@ == name].1
}

proof fn lemma_seq_get_at(entries: Seq<(String, TotpRecord)>, i: int)
    requires
        unique_keys(entries),
        0 <= i < entries.len(),
    ensures
        seq_get(entries, entries[i].0@) == entries[i].1,
{
    let name = entries[i].0@;
    let j = choose|j: int| 0 <= j < entries.len() && entries[j].0@ == name;
    if j != i {
        assert(false);
    }
}

/// The in-memory mapping from record name to record.
///
/// Entries are held as a list whose names are unique; every operation keeps
/// that invariant.
pub struct TotpRecordDict {
    entries: Vec<(String, TotpRecord)>,
}

impl TotpRecordDict {
    /// The entries hold no duplicate name.
    pub closed spec fn wf(self) -> bool {
        unique_keys(self.entries@)
    }

    /// The entries as a sequence of name-record pairs.
    pub closed spec fn spec_entries(self) -> Seq<(String, TotpRecord)> {
        self.entries@
    }

    /// Whether a record with the given name is present.
    pub closed spec fn spec_has(self, name: Seq<char>) -> bool {
        seq_has_key(self.entries@, name)
    }

    /// The record stored under the given name.
    pub closed spec fn spec_get(self, name: Seq<char>) -> TotpRecord {
        seq_get(self.entries@, name)
    }

    pub closed spec fn spec_len(self) -> nat {
        self.entries@.len()
    }

    /// An empty record mapping.
    pub fn new() -> (r: TotpRecordDict)
        ensures
            r.wf(),
            r.spec_len() == 0,
            forall|k: Seq<char>| !r.spec_has(k),
    {
        TotpRecordDict { entries: Vec::new() }
    }

    pub fn len(&self) -> (r: usize)
        ensures
            r == self.spec_len(),
    {
        self.entries.len()
    }

    /// The entries, for iteration by callers.
    pub fn entries(&self) -> (r: &Vec<(String, TotpRecord)>)
        ensures
            r@ == self.spec_entries(),
    {
        &self.entries
    }

    /// The index of the entry with the given name, if any.
    fn find(&self, name: &String) -> (r: Option<usize>)
        ensures
            r matches Some(i) ==> i < self.entries@.len() && self.entries@[i as int].0@ == name@,
            r is None ==> !self.spec_has(name@),
    {
        let mut i: usize = 0;
        while i < self.entries.len()
            invariant
                i <= self.entries@.len(),
                forall|j: int| 0 <= j < i ==> self.entries@[j].0@ != name@,
            decreases self.entries@.len() - i,
        {
            let entry = &self.entries[i];
            if entry.0 == *name {
                return Some(i);
            }
            i = i + 1;
        }
        None
    }

    /// The record with the given name, if any.
    pub fn get(&self, name: &String) -> (r: Option<&TotpRecord>)
        requires
            self.wf(),
        ensures
            r is Some <==> self.spec_has(name@),
            r matches Some(rec) ==> *rec == self.spec_get(name@),
    {
        match self.find(name) {
            Some(i) => {
                proof {
                    lemma_seq_get_at(self.entries@, i as int);
                }
                Some(&self.entries[i].1)
            },
            None => None,
        }
    }

    /// Stores a record under a name, replacing any record the name held.
    pub fn insert(&mut self, name: String, record: TotpRecord)
        requires
            old(self).wf(),
        ensures
            final(self).wf(),
            final(self).spec_has(name@),
            final(self).spec_get(name@) == record,
            forall|k: Seq<char>|
                k != name@ ==> (final(self).spec_has(k) <==> old(self).spec_has(k)),
            forall|k: Seq<char>|
                k != name@ && old(self).spec_has(k) ==> final(self).spec_get(k) == old(self).spec_get(k),
    {
        let ghost old_entries = self.entries@;
        let found = self.find(&name);
        match found {
            Some(i) => {
                self.entries.remove(i);
                proof {
                    lemma_after_remove(old_entries, i as int);
                }
            },
            None => {},
        }
        let ghost mid_entries = self.entries@;
        self.entries.push((name, record));
        proof {
            lemma_after_push(mid_entries, self.entries@[self.entries@.len() - 1]);
        }
    }

    /// Removes the record with the given name, handing it back if it was there.
    pub fn remove(&mut self, name: &String) -> (r: Option<TotpRecord>)
        requires
            old(self).wf(),
        ensures
            final(self).wf(),
            r is Some <==> old(self).spec_has(name@),
            r matches Some(rec) ==> rec == old(self).spec_get(name@),
            r is None ==> *final(self) == *old(self),
            !final(self).spec_has(name@),
            forall|k: Seq<char>|
                k != name@ ==> (final(self).spec_has(k) <==> old(self).spec_has(k)),
            forall|k: Seq<char>|
                k != name@ && old(self).spec_has(k) ==> final(self).spec_get(k) == old(self).spec_get(k),
    {
        let ghost old_entries = self.entries@;
        match self.find(name) {
            Some(i) => {
                proof {
                    lemma_seq_get_at(old_entries, i as int);
                }
                let entry = self.entries.remove(i);
                proof {
                    lemma_after_remove(old_entries, i as int);
                    lemma_removed_key_gone(old_entries, i as int);
                }
                Some(entry.1)
            },
            None => None,
        }
    }
}

/// After removing index `i`, membership and lookups are unchanged for every
/// name but the one at `i`, and uniqueness is kept.
proof fn lemma_after_remove(entries: Seq<(String, TotpRecord)>, i: int)
    requires
        unique_keys(entries),
        0 <= i < entries.len(),
    ensures
        unique_keys(entries.remove(i)),
        forall|k: Seq<char>|
            k != entries[i].0@ ==> (seq_has_key(entries.remove(i), k) <==> seq_has_key(
                entries,
                k,
            )),
        forall|k: Seq<char>|
            k != entries[i].0@ && seq_has_key(entries, k) ==> seq_get(entries.remove(i), k)
                == seq_get(entries, k),
{
    let removed = entries.remove(i);
    assert forall|k: Seq<char>|
        k != entries[i].0@ && seq_has_key(entries, k) implies seq_has_key(removed, k) by {
        let w = choose|w: int| 0 <= w < entries.len() && entries[w].0@ == k;
        if w < i {
            assert(removed[w].0@ == k);
        } else {
            assert(removed[w - 1].0@ == k);
        }
    }
    assert forall|k: Seq<char>| seq_has_key(removed, k) implies seq_has_key(entries, k) by {
        let w = choose|w: int| 0 <= w < removed.len() && removed[w].0@ == k;
        if w < i {
            assert(entries[w].0@ == k);
        } else {
            assert(entries[w + 1].0@ == k);
        }
    }
    assert forall|k: Seq<char>|
        k != entries[i].0@ && seq_has_key(entries, k) implies seq_get(removed, k) == seq_get(
        entries,
        k,
    ) by {
        let w = choose|w: int| 0 <= w < entries.len() && entries[w].0@ == k;
        lemma_seq_get_at(entries, w);
        if w < i {
            lemma_seq_get_at(removed, w);
            assert(removed[w] == entries[w]);
        } else {
            lemma_seq_get_at(removed, w - 1);
            assert(removed[w - 1] == entries[w]);
        }
    }
}

/// The name at the removed index is not among the remaining entries.
proof fn lemma_removed_key_gone(entries: Seq<(String, TotpRecord)>, i: int)
    requires
        unique_keys(entries),
        0 <= i < entries.len(),
    ensures
        !seq_has_key(entries.remove(i), entries[i].0@),
{
    let removed = entries.remove(i);
    let k = entries[i].0@;
    if seq_has_key(removed, k) {
        let w = choose|w: int| 0 <= w < removed.len() && removed[w].0@ == k;
        if w < i {
            assert(entries[w].0@ == k);
        } else {
            assert(entries[w + 1].0@ == k);
        }
    }
}

/// After appending an entry whose name is absent from the rest, membership
/// and lookups are as a map update says, and uniqueness is kept.
proof fn lemma_after_push(mid: Seq<(String, TotpRecord)>, entry: (String, TotpRecord))
    requires
        unique_keys(mid),
        !seq_has_key(mid, entry.0@),
    ensures
        unique_keys(mid.push(entry)),
        seq_has_key(mid.push(entry), entry.0@),
        seq_get(mid.push(entry), entry.0@) == entry.1,
        forall|k: Seq<char>|
            k != entry.0@ ==> (seq_has_key(mid.push(entry), k) <==> seq_has_key(mid, k)),
        forall|k: Seq<char>|
            k != entry.0@ && seq_has_key(mid, k) ==> seq_get(mid.push(entry), k) == seq_get(
                mid,
                k,
            ),
{
    let pushed = mid.push(entry);
    assert(pushed[mid.len() as int] == entry);
    assert forall|i: int, j: int| 0 <= i < j < pushed.len() implies pushed[i].0@ != pushed[j].0@ by {
        if j == mid.len() {
            assert(pushed[i] == mid[i]);
            if pushed[i].0@ == entry.0@ {
                assert(seq_has_key(mid, entry.0@));
            }
        } else {
            assert(pushed[i] == mid[i] && pushed[j] == mid[j]);
        }
    }
    lemma_seq_get_at(pushed, mid.len() as int);
    assert forall|k: Seq<char>| k != entry.0@ && seq_has_key(mid, k) implies seq_has_key(
        pushed,
        k,
    ) && seq_get(pushed, k) == seq_get(mid, k) by {
        let w = choose|w: int| 0 <= w < mid.len() && mid[w].0@ == k;
        assert(pushed[w] == mid[w]);
        lemma_seq_get_at(mid, w);
        lemma_seq_get_at(pushed, w);
    }
    assert forall|k: Seq<char>| k != entry.0@ && seq_has_key(pushed, k) implies seq_has_key(
        mid,
        k,
    ) by {
        let w = choose|w: int| 0 <= w < pushed.len() && pushed[w].0@ == k;
        assert(w != mid.len());
        assert(pushed[w] == mid[w]);
    }
}

/// What decryption of a blob yields at the specification level: nothing for
/// a blob too short to hold the nonce or whose tag does not verify, the
/// plaintext otherwise.
pub open spec fn spec_decrypt(key: Seq<u8>, blob: Seq<u8>) -> Option<Seq<u8>> {
    if blob.len() < NONCE_LEN {
        None
    } else {
        xchacha_open(key, blob.subrange(0, NONCE_LEN as int), blob.subrange(NONCE_LEN as int, blob.len() as int))
    }
}

/// Accepted file types for a record file.
#[derive(Debug, Clone, Copy, PartialEq, Eq, Structural)]
pub enum TotpFileType {
    JSON,
    YAML,
    TOTP,
}

/// A file that stores TOTP credentials.
///
/// Holds the path, file type, records and, for an encrypted file, the key
/// derived once from the passphrase so the user is not asked twice. The key
/// is what `chacha::make_key` produced, never the passphrase itself.
pub struct TotpFile {
    pub path: String,
    pub file_type: TotpFileType,
    pub records: TotpRecordDict,
    pub key: Option<Key>,
}

impl TotpFile {
    /// Splits and decrypts the byte content of an encrypted file.
    ///
    /// The nonce is the first 24 bytes of the data; the rest is the sealed
    /// record data. A blob too short to hold the nonce is rejected as a
    /// format error before any cryptography runs; a tag that does not verify
    /// is an authentication error, whether the data was corrupted or the key
    /// is wrong.
    pub fn decrypt(key: &Key, data: Vec<u8>) -> (r: Result<Vec<u8>>)
        ensures
            r is Ok <==> spec_decrypt(key@, data@) is Some,
            r matches Ok(p) ==> spec_decrypt(key@, data@) == Some(p@),
            r matches Err(e) ==> e.kind == (if data@.len() < NONCE_LEN {
                ErrorKind::FormatError
            } else {
                ErrorKind::ChaChaError
            }),
    {
        if data.len() < NONCE_LEN {
            return Err(
                Error::new(ErrorKind::FormatError).with_message(
                    "invalid file format for encrypted file".to_owned(),
                ),
            );
        }
        let mut nonce: chacha::Nonce = [0u8; NONCE_LEN];
        let mut i: usize = 0;
        while i < NONCE_LEN
            invariant
                i <= NONCE_LEN,
                data@.len() >= NONCE_LEN,
                forall|j: int| 0 <= j < i ==> nonce@[j] == data@[j],
            decreases NONCE_LEN - i,
        {
            nonce[i] = data[i];
            i = i + 1;
        }
        let mut encrypted: Vec<u8> = Vec::new();
        let mut j: usize = NONCE_LEN;
        while j < data.len()
            invariant
                NONCE_LEN <= j <= data@.len(),
                encrypted@.len() == j - NONCE_LEN,
                forall|k: int| 0 <= k < encrypted@.len() ==> encrypted@[k] == data@[k + NONCE_LEN],
            decreases data@.len() - j,
        {
            encrypted.push(data[j]);
            j = j + 1;
        }
        proof {
            assert(nonce@ =~= data@.subrange(0, NONCE_LEN as int));
            assert(encrypted@ =~= data@.subrange(NONCE_LEN as int, data@.len() as int));
        }
        decrypt_data(key, &nonce, encrypted.as_slice())
    }

    /// Encrypts the byte content of an encrypted file.
    ///
    /// Creates a fresh random nonce, seals the data under the key, and
    /// returns a blob with the nonce in the first 24 bytes and the sealed
    /// data in the rest. For data of realistic length the only possible
    /// failure is the entropy source.
    pub fn encrypt(key: &Key, data: &[u8]) -> (r: Result<Vec<u8>>)
        ensures
            r matches Ok(b) ==> {
                &&& b@.len() == data@.len() + (NONCE_LEN + 16)
                &&& b@.subrange(NONCE_LEN as int, b@.len() as int) == xchacha_seal(
                    key@,
                    b@.subrange(0, NONCE_LEN as int),
                    data@,
                )
                &&& spec_decrypt(key@, b@) == Some(data@)
            },
            r matches Err(e) ==> (e.kind == ErrorKind::RandError || e.kind
                == ErrorKind::ChaChaError),
            data@.len() < 0x3fffffffc0 ==> (r is Ok || (r matches Err(e) && e.kind
                == ErrorKind::RandError)),
    {
        let nonce = match make_nonce() {
            Ok(n) => n,
            Err(e) => {
                return Err(e);
            },
        };
        let encrypted = match encrypt_data(key, &nonce, data) {
            Ok(c) => c,
            Err(e) => {
                return Err(e);
            },
        };
        let mut contents: Vec<u8> = Vec::new();
        let mut i: usize = 0;
        while i < NONCE_LEN
            invariant
                i <= NONCE_LEN,
                contents@.len() == i,
                forall|k: int| 0 <= k < i ==> contents@[k] == nonce@[k],
            decreases NONCE_LEN - i,
        {
            contents.push(nonce[i]);
            i = i + 1;
        }
        let mut j: usize = 0;
        while j < encrypted.len()
            invariant
                j <= encrypted@.len(),
                contents@.len() == NONCE_LEN + j,
                forall|k: int| 0 <= k < NONCE_LEN ==> contents@[k] == nonce@[k],
                forall|k: int| 0 <= k < j ==> contents@[k + NONCE_LEN] == encrypted@[k],
            decreases encrypted@.len() - j,
        {
            contents.push(encrypted[j]);
            j = j + 1;
        }
        proof {
            assert(contents@.subrange(0, NONCE_LEN as int) =~= nonce@);
            assert(contents@.subrange(NONCE_LEN as int, contents@.len() as int) =~= encrypted@);
        }
        Ok(contents)
    }

    /// Takes the records of the file and discards the rest.
    pub fn take_records(self) -> (r: TotpRecordDict)
        ensures
            r == self.records,
    {
        self.records
    }
}

/// Round trip: a blob that holds a sealing of some plaintext under a key —
/// as every blob `encrypt` returns does — decrypts under that key to exactly
/// that plaintext.
pub proof fn lemma_encrypt_decrypt_round_trip(key: Seq<u8>, plain: Seq<u8>, blob: Seq<u8>)
    requires
        blob.len() >= NONCE_LEN,
        xchacha_open(
            key,
            blob.subrange(0, NONCE_LEN as int),
            blob.subrange(NONCE_LEN as int, blob.len() as int),
        ) == Some(plain),
    ensures
        spec_decrypt(key, blob) == Some(plain),
{
}

impl TotpRecordDict {
    /// Drops the record with the given name; a name the file does not hold
    /// is an invalid-argument error and leaves the records unchanged.
    pub fn drop_record(&mut self, name: &String) -> (r: Result<TotpRecord>)
        requires
            old(self).wf(),
        ensures
            final(self).wf(),
            r is Ok <==> old(self).spec_has(name@),
            r matches Ok(rec) ==> rec == old(self).spec_get(name@),
            r matches Err(e) ==> *final(self) == *old(self) && e.kind
                == ErrorKind::InvalidArgument,
            !final(self).spec_has(name@),
            forall|k: Seq<char>|
                k != name@ ==> (final(self).spec_has(k) <==> old(self).spec_has(k)),
            forall|k: Seq<char>|
                k != name@ && old(self).spec_has(k) ==> final(self).spec_get(k) == old(self).spec_get(k),
    {
        match self.remove(name) {
            Some(rec) => Ok(rec),
            None => Err(name_not_found(name.clone())),
        }
    }

    /// Moves the record under `original` to the name `renamed`, replacing
    /// any record that name held; a missing original is an invalid-argument
    /// error and leaves the records unchanged.
    pub fn rename_record(&mut self, original: &String, renamed: String) -> (r: Result<()>)
        requires
            old(self).wf(),
        ensures
            final(self).wf(),
            r is Ok <==> old(self).spec_has(original@),
            r matches Err(e) ==> *final(self) == *old(self) && e.kind
                == ErrorKind::InvalidArgument,
            r is Ok ==> {
                &&& final(self).spec_has(renamed@)
                &&& final(self).spec_get(renamed@) == old(self).spec_get(original@)
                &&& (original@ != renamed@ ==> !final(self).spec_has(original@))
                &&& forall|k: Seq<char>|
                    k != original@ && k != renamed@ ==> (final(self).spec_has(k) <==> old(self).spec_has(k))
                &&& forall|k: Seq<char>|
                    k != original@ && k != renamed@ && old(self).spec_has(k) ==> final(self).spec_get(k) == old(self).spec_get(k)
            },
    {
        match self.remove(original) {
            Some(rec) => {
                self.insert(renamed, rec);
                Ok(())
            },
            None => Err(name_not_found(original.clone())),
        }
    }

    /// Updates the record with the given name to the desired values; a name
    /// the file does not hold is an invalid-argument error and leaves the
    /// records unchanged.
    pub fn edit_record(
        &mut self,
        name: &String,
        secret: Option<Vec<u8>>,
        algo: Option<Algo>,
        digits: Option<u32>,
        step: Option<u64>,
        issuer: Option<String>,
        username: Option<String>,
    ) -> (r: Result<()>)
        requires
            old(self).wf(),
        ensures
            final(self).wf(),
            r is Ok <==> old(self).spec_has(name@),
            r matches Err(e) ==> *final(self) == *old(self) && e.kind
                == ErrorKind::InvalidArgument,
            r is Ok ==> {
                &&& final(self).spec_has(name@)
                &&& final(self).spec_get(name@) == edited_record(
                    old(self).spec_get(name@),
                    secret,
                    algo,
                    digits,
                    step,
                    issuer,
                    username,
                )
                &&& forall|k: Seq<char>|
                    k != name@ ==> (final(self).spec_has(k) <==> old(self).spec_has(k))
                &&& forall|k: Seq<char>|
                    k != name@ && old(self).spec_has(k) ==> final(self).spec_get(k) == old(self).spec_get(k)
            },
    {
        match self.remove(name) {
            Some(mut rec) => {
                rec.apply_edits(secret, algo, digits, step, issuer, username);
                self.insert(name.clone(), rec);
                Ok(())
            },
            None => Err(name_not_found(name.clone())),
        }
    }
}

} // verus!
