use crate::codec::{
    encode_password, encoding_round_trips, extract_password, le_bytes_of, lossy_text_of,
    password_outcome, text_of_utf16_lossy, to_wstr_no_null, utf16_of,
};
use crate::credential::{reports, valid_attributes, validation_error, CredentialModel, WinCredential};
use crate::error::{decode_error, ErrorCode, ERROR_NOT_FOUND};
use vstd::prelude::*;

verus! {

/// One generic credential as the vault holds it: four wide strings, without
/// terminating units, and the secret's blob.
#[derive(Debug, Clone)]
pub struct VaultRecord {
    pub target_name: Vec<u16>,
    pub username: Vec<u16>,
    pub target_alias: Vec<u16>,
    pub comment: Vec<u16>,
    pub blob: Vec<u8>,
}

/// What a record holds.
pub struct RecordModel {
    pub target_name: Seq<u16>,
    pub username: Seq<u16>,
    pub target_alias: Seq<u16>,
    pub comment: Seq<u16>,
    pub blob: Seq<u8>,
}

impl View for VaultRecord {
    type V = RecordModel;

    open spec fn view(&self) -> RecordModel {
        RecordModel {
            target_name: self.target_name@,
            username: self.username@,
            target_alias: self.target_alias@,
            comment: self.comment@,
            blob: self.blob@,
        }
    }
}

/// No two records share a target name.
pub open spec fn unique_keys(s: Seq<VaultRecord>) -> bool {
    forall|i: int, j: int|
        0 <= i < s.len() && 0 <= j < s.len() && i != j ==> #[trigger] s[i].target_name@
            != #[trigger] s[j].target_name@
}

/// Some record has the target name `k`.
pub open spec fn has_key(s: Seq<VaultRecord>, k: Seq<u16>) -> bool {
    exists|i: int| 0 <= i < s.len() && #[trigger] s[i].target_name@ == k
}

/// The records by target name.
pub open spec fn contents(s: Seq<VaultRecord>) -> Map<Seq<u16>, RecordModel> {
    Map::new(
        |k: Seq<u16>| has_key(s, k),
        |k: Seq<u16>| s[choose|i: int| 0 <= i < s.len() && #[trigger] s[i].target_name@ == k]@,
    )
}

proof fn lemma_at(s: Seq<VaultRecord>, i: int)
    requires
        unique_keys(s),
        0 <= i < s.len(),
    ensures
        contents(s).contains_key(s[i].target_name@),
        contents(s)[s[i].target_name@] == s[i]@,
{
    let k = s[i].target_name@;
    assert(has_key(s, k));
    let j = choose|j: int| 0 <= j < s.len() && #[trigger] s[j].target_name@ == k;
    assert(s[j].target_name@ == k);
}

proof fn lemma_push(s: Seq<VaultRecord>, r: VaultRecord)
    requires
        unique_keys(s),
        !has_key(s, r.target_name@),
    ensures
        unique_keys(s.push(r)),
        contents(s.push(r)) == contents(s).insert(r.target_name@, r@),
{
    let t = s.push(r);
    assert forall|i: int, j: int|
        0 <= i < t.len() && 0 <= j < t.len() && i != j implies #[trigger] t[i].target_name@
        != #[trigger] t[j].target_name@ by {
        if i < s.len() && j < s.len() {
            assert(t[i] == s[i] && t[j] == s[j]);
        } else if i < s.len() {
            assert(t[i] == s[i]);
        } else {
            assert(t[j] == s[j]);
        }
    }
    let m = contents(s).insert(r.target_name@, r@);
    assert forall|k: Seq<u16>| #[trigger] contents(t).contains_key(k) <==> m.contains_key(k) by {
        if has_key(t, k) {
            let i = choose|i: int| 0 <= i < t.len() && #[trigger] t[i].target_name@ == k;
            if i < s.len() {
                assert(t[i] == s[i]);
                assert(has_key(s, k));
            }
        }
        if has_key(s, k) {
            let i = choose|i: int| 0 <= i < s.len() && #[trigger] s[i].target_name@ == k;
            assert(t[i] == s[i]);
            assert(has_key(t, k));
        }
        if k == r.target_name@ {
            assert(t[s.len() as int] == r);
            assert(has_key(t, k));
        }
    }
    assert forall|k: Seq<u16>| #[trigger] contents(t).contains_key(k) implies contents(t)[k]
        == m[k] by {
        let i = choose|i: int| 0 <= i < t.len() && #[trigger] t[i].target_name@ == k;
        lemma_at(t, i);
        if i < s.len() {
            assert(t[i] == s[i]);
            lemma_at(s, i);
        } else {
            assert(t[i] == r);
        }
    }
    assert(contents(t) =~= m);
}

proof fn lemma_remove(s: Seq<VaultRecord>, i: int)
    requires
        unique_keys(s),
        0 <= i < s.len(),
    ensures
        unique_keys(s.remove(i)),
        contents(s.remove(i)) == contents(s).remove(s[i].target_name@),
{
    let t = s.remove(i);
    let gone = s[i].target_name@;
    assert forall|a: int, b: int|
        0 <= a < t.len() && 0 <= b < t.len() && a != b implies #[trigger] t[a].target_name@
        != #[trigger] t[b].target_name@ by {
        let a2 = if a < i { a } else { a + 1 };
        let b2 = if b < i { b } else { b + 1 };
        assert(t[a] == s[a2] && t[b] == s[b2]);
    }
    let m = contents(s).remove(gone);
    assert forall|k: Seq<u16>| #[trigger] contents(t).contains_key(k) <==> m.contains_key(k) by {
        if has_key(t, k) {
            let a = choose|a: int| 0 <= a < t.len() && #[trigger] t[a].target_name@ == k;
            let a2 = if a < i { a } else { a + 1 };
            assert(t[a] == s[a2]);
            assert(has_key(s, k));
        }
        if has_key(s, k) && k != gone {
            let a = choose|a: int| 0 <= a < s.len() && #[trigger] s[a].target_name@ == k;
            let a2 = if a < i { a } else { a - 1 };
            assert(t[a2] == s[a]);
            assert(has_key(t, k));
        }
    }
    assert forall|k: Seq<u16>| #[trigger] contents(t).contains_key(k) implies contents(t)[k]
        == m[k] by {
        let a = choose|a: int| 0 <= a < t.len() && #[trigger] t[a].target_name@ == k;
        let a2 = if a < i { a } else { a + 1 };
        assert(t[a] == s[a2]);
        lemma_at(t, a);
        lemma_at(s, a2);
    }
    assert(contents(t) =~= m);
}

/// The two unit sequences are equal.
fn same_units(a: &[u16], b: &[u16]) -> (r: bool)
    ensures
        r == (a@ == b@),
{
    if a.len() != b.len() {
        return false;
    }
    let mut i: usize = 0;
    while i < a.len()
        invariant
            a@.len() == b@.len(),
            i <= a@.len(),
            forall|j: int| 0 <= j < i ==> a@[j] == b@[j],
        decreases a@.len() - i,
    {
        if a[i] != b[i] {
            return false;
        }
        i = i + 1;
    }
    assert(a@ =~= b@);
    true
}

/// A model of the vault: one store keyed by target name, where a write
/// replaces any record of the same name whole.
pub struct CredentialVault {
    entries: Vec<VaultRecord>,
}

impl View for CredentialVault {
    type V = Map<Seq<u16>, RecordModel>;

    closed spec fn view(&self) -> Map<Seq<u16>, RecordModel> {
        contents(self.entries@)
    }
}

impl CredentialVault {
    /// The store's target names are unique.
    pub closed spec fn wf(&self) -> bool {
        unique_keys(self.entries@)
    }

    /// An empty vault.
    pub fn new() -> (r: CredentialVault)
        ensures
            r.wf(),
            r@ == Map::<Seq<u16>, RecordModel>::empty(),
    {
        let r = CredentialVault { entries: Vec::new() };
        assert(r@ =~= Map::<Seq<u16>, RecordModel>::empty());
        r
    }

    /// Where the record of a target name stands, if there is one.
    fn find(&self, key: &[u16]) -> (r: Option<usize>)
        ensures
            r matches Some(i) ==> i < self.entries@.len() && self.entries@[i as int].target_name@
                == key@,
            r is None ==> !has_key(self.entries@, key@),
    {
        let mut i: usize = 0;
        while i < self.entries.len()
            invariant
                i <= self.entries@.len(),
                forall|j: int| 0 <= j < i ==> #[trigger] self.entries@[j].target_name@ != key@,
            decreases self.entries@.len() - i,
        {
            if same_units(self.entries[i].target_name.as_slice(), key) {
                return Some(i);
            }
            i = i + 1;
        }
        None
    }

    /// Stores a record, replacing any record of the same target name.
    pub fn write(&mut self, record: VaultRecord)
        requires
            old(self).wf(),
        ensures
            final(self).wf(),
            final(self)@ == old(self)@.insert(record.target_name@, record@),
    {
        match self.find(record.target_name.as_slice()) {
            Some(i) => {
                proof {
                    lemma_at(self.entries@, i as int);
                    lemma_remove(self.entries@, i as int);
                }
                self.entries.remove(i);
            },
            None => {},
        }
        proof {
            assert(!has_key(self.entries@, record.target_name@));
            lemma_push(self.entries@, record);
        }
        self.entries.push(record);
        assert(self@ =~= old(self)@.insert(record.target_name@, record@));
    }

    /// The record stored under a target name, if any.
    pub fn read(&self, key: &[u16]) -> (r: Option<&VaultRecord>)
        requires
            self.wf(),
        ensures
            match r {
                Some(rec) => self@.contains_key(key@) && self@[key@] == rec@,
                None => !self@.contains_key(key@),
            },
    {
        match self.find(key) {
            Some(i) => {
                proof {
                    lemma_at(self.entries@, i as int);
                }
                Some(&self.entries[i])
            },
            None => None,
        }
    }

    /// Removes the record stored under a target name; tells whether there
    /// was one.
    pub fn delete(&mut self, key: &[u16]) -> (r: bool)
        requires
            old(self).wf(),
        ensures
            final(self).wf(),
            r == old(self)@.contains_key(key@),
            final(self)@ == old(self)@.remove(key@),
    {
        match self.find(key) {
            Some(i) => {
                proof {
                    lemma_at(self.entries@, i as int);
                    lemma_remove(self.entries@, i as int);
                }
                self.entries.remove(i);
                true
            },
            None => {
                assert(self@ =~= old(self)@.remove(key@));
                false
            },
        }
    }
}

/// The key under which the vault keeps an identity.
pub open spec fn vault_key(c: CredentialModel) -> Seq<u16> {
    utf16_of(c.target_name)
}

/// The record written for an identity and a secret.
pub open spec fn stored_record(c: CredentialModel, password: Seq<char>) -> RecordModel {
    RecordModel {
        target_name: utf16_of(c.target_name),
        username: utf16_of(c.username),
        target_alias: utf16_of(c.target_alias),
        comment: utf16_of(c.comment),
        blob: le_bytes_of(utf16_of(password)),
    }
}

/// The identity read back from a record: each field is the text whose
/// UTF-16 code units the record holds.
pub open spec fn recovered_from(c: CredentialModel, rec: RecordModel) -> bool {
    &&& forall|s: Seq<char>| #[trigger] utf16_of(s) == rec.username ==> c.username == s
    &&& forall|s: Seq<char>| #[trigger] utf16_of(s) == rec.target_name ==> c.target_name == s
    &&& forall|s: Seq<char>| #[trigger] utf16_of(s) == rec.target_alias ==> c.target_alias == s
    &&& forall|s: Seq<char>| #[trigger] utf16_of(s) == rec.comment ==> c.comment == s
}

/// What a lookup of an identity yields: the validation error, `NoEntry`
/// for an absent target, or else what `found` says of the record.
pub open spec fn lookup_outcome<T>(
    c: CredentialModel,
    v: Map<Seq<u16>, RecordModel>,
    r: Result<T, ErrorCode>,
    found: spec_fn(RecordModel) -> bool,
) -> bool {
    match validation_error(c, Seq::empty()) {
        Some(rej) => r matches Err(e) && reports(e, rej),
        None => if v.contains_key(vault_key(c)) {
            found(v[vault_key(c)])
        } else {
            r matches Err(ErrorCode::NoEntry)
        },
    }
}

impl WinCredential {
    /// The record that a write of `password` under this identity stores,
    /// once the identity and the secret pass validation.
    pub fn record_for(&self, password: &str) -> (r: Result<VaultRecord, ErrorCode>)
        ensures
            match validation_error(self@, password@) {
                Some(rej) => r matches Err(e) && reports(e, rej),
                None => r matches Ok(rec) && rec@ == stored_record(self@, password@),
            },
    {
        match self.validate_attributes(password) {
            Err(e) => Err(e),
            Ok(()) => Ok(
                VaultRecord {
                    target_name: to_wstr_no_null(self.target_name.as_str()),
                    username: to_wstr_no_null(self.username.as_str()),
                    target_alias: to_wstr_no_null(self.target_alias.as_str()),
                    comment: to_wstr_no_null(self.comment.as_str()),
                    blob: encode_password(password),
                },
            ),
        }
    }

    /// Writes the secret under this identity's target name, replacing any
    /// record there whole. Nothing is written when validation fails.
    pub fn set_password(&self, vault: &mut CredentialVault, password: &str) -> (r: Result<
        (),
        ErrorCode,
    >)
        requires
            old(vault).wf(),
        ensures
            final(vault).wf(),
            match validation_error(self@, password@) {
                Some(rej) => r matches Err(e) && reports(e, rej) && final(vault)@ == old(vault)@,
                None => r is Ok && final(vault)@ == old(vault)@.insert(
                    vault_key(self@),
                    stored_record(self@, password@),
                ),
            },
    {
        match self.record_for(password) {
            Err(e) => Err(e),
            Ok(record) => {
                vault.write(record);
                Ok(())
            },
        }
    }

    /// Reads the secret stored under this identity's target name.
    pub fn get_password(&self, vault: &CredentialVault) -> (r: Result<String, ErrorCode>)
        requires
            vault.wf(),
        ensures
            lookup_outcome(self@, vault@, r, |rec: RecordModel| password_outcome(r, rec.blob)),
    {
        proof {
            reveal_strlit("");
            assert(""@ =~= Seq::<char>::empty());
        }
        match self.validate_attributes("") {
            Err(e) => Err(e),
            Ok(()) => {
                let key = to_wstr_no_null(self.target_name.as_str());
                match vault.read(key.as_slice()) {
                    None => Err(decode_error(ERROR_NOT_FOUND)),
                    Some(rec) => extract_password(rec.blob.as_slice()),
                }
            },
        }
    }

    /// Removes the record stored under this identity's target name.
    pub fn delete_password(&self, vault: &mut CredentialVault) -> (r: Result<(), ErrorCode>)
        requires
            old(vault).wf(),
        ensures
            final(vault).wf(),
            lookup_outcome(self@, old(vault)@, r, |rec: RecordModel| r is Ok),
            r is Ok ==> final(vault)@ == old(vault)@.remove(vault_key(self@)),
            r is Err ==> final(vault)@ == old(vault)@,
    {
        proof {
            reveal_strlit("");
            assert(""@ =~= Seq::<char>::empty());
        }
        match self.validate_attributes("") {
            Err(e) => Err(e),
            Ok(()) => {
                let key = to_wstr_no_null(self.target_name.as_str());
                if vault.delete(key.as_slice()) {
                    Ok(())
                } else {
                    assert(old(vault)@.remove(key@) =~= old(vault)@);
                    Err(decode_error(ERROR_NOT_FOUND))
                }
            },
        }
    }

    /// The identity held in a record.
    pub fn extract_credential(rec: &VaultRecord) -> (r: WinCredential)
        ensures
            r.username@ == lossy_text_of(rec.username@),
            r.target_name@ == lossy_text_of(rec.target_name@),
            r.target_alias@ == lossy_text_of(rec.target_alias@),
            r.comment@ == lossy_text_of(rec.comment@),
            recovered_from(r@, rec@),
    {
        WinCredential {
            username: text_of_utf16_lossy(rec.username.as_slice()),
            target_name: text_of_utf16_lossy(rec.target_name.as_slice()),
            target_alias: text_of_utf16_lossy(rec.target_alias.as_slice()),
            comment: text_of_utf16_lossy(rec.comment.as_slice()),
        }
    }

    /// Reads back the whole identity stored under this identity's target name.
    pub fn get_credential(&self, vault: &CredentialVault) -> (r: Result<WinCredential, ErrorCode>)
        requires
            vault.wf(),
        ensures
            lookup_outcome(
                self@,
                vault@,
                r,
                |rec: RecordModel| r matches Ok(c) && recovered_from(c@, rec),
            ),
    {
        proof {
            reveal_strlit("");
            assert(""@ =~= Seq::<char>::empty());
        }
        match self.validate_attributes("") {
            Err(e) => Err(e),
            Ok(()) => {
                let key = to_wstr_no_null(self.target_name.as_str());
                match vault.read(key.as_slice()) {
                    None => Err(decode_error(ERROR_NOT_FOUND)),
                    Some(rec) => Ok(WinCredential::extract_credential(rec)),
                }
            },
        }
    }
}

/// Reading back a secret just written under an identity gives that secret.
pub proof fn write_then_read(
    v: Map<Seq<u16>, RecordModel>,
    c: CredentialModel,
    password: Seq<char>,
    r: Result<String, ErrorCode>,
)
    requires
        valid_attributes(c, password),
        lookup_outcome(
            c,
            v.insert(vault_key(c), stored_record(c, password)),
            r,
            |rec: RecordModel| password_outcome(r, rec.blob),
        ),
    ensures
        r matches Ok(t) && t@ == password,
{
    assert(validation_error(c, Seq::empty()) is None);
    encoding_round_trips(password);
}

/// A second write under the same identity replaces the first whole: a read
/// gives the second secret.
pub proof fn last_write_wins(
    v: Map<Seq<u16>, RecordModel>,
    c: CredentialModel,
    first: Seq<char>,
    second: Seq<char>,
    r: Result<String, ErrorCode>,
)
    requires
        valid_attributes(c, first),
        valid_attributes(c, second),
        lookup_outcome(
            c,
            v.insert(vault_key(c), stored_record(c, first)).insert(
                vault_key(c),
                stored_record(c, second),
            ),
            r,
            |rec: RecordModel| password_outcome(r, rec.blob),
        ),
    ensures
        r matches Ok(t) && t@ == second,
{
    let once = v.insert(vault_key(c), stored_record(c, second));
    let twice = v.insert(vault_key(c), stored_record(c, first)).insert(
        vault_key(c),
        stored_record(c, second),
    );
    assert(twice =~= once);
    write_then_read(v, c, second, r);
}

/// A lookup of a target that the vault does not hold, because it was never
/// written or was deleted, reports `NoEntry` and nothing else.
pub proof fn absent_target_is_no_entry<T>(
    v: Map<Seq<u16>, RecordModel>,
    c: CredentialModel,
    r: Result<T, ErrorCode>,
    found: spec_fn(RecordModel) -> bool,
)
    requires
        valid_attributes(c, Seq::empty()),
        !v.contains_key(vault_key(c)),
        lookup_outcome(c, v, r, found),
    ensures
        r matches Err(ErrorCode::NoEntry),
{
}

/// After a delete, a lookup of the same identity reports `NoEntry`.
pub proof fn delete_then_read<T>(
    v: Map<Seq<u16>, RecordModel>,
    c: CredentialModel,
    r: Result<T, ErrorCode>,
    found: spec_fn(RecordModel) -> bool,
)
    requires
        valid_attributes(c, Seq::empty()),
        lookup_outcome(c, v.remove(vault_key(c)), r, found),
    ensures
        r matches Err(ErrorCode::NoEntry),
{
    absent_target_is_no_entry(v.remove(vault_key(c)), c, r, found);
}

/// Reading back the identity just written gives all four fields unchanged.
pub proof fn write_then_read_identity(
    v: Map<Seq<u16>, RecordModel>,
    c: CredentialModel,
    password: Seq<char>,
    r: Result<WinCredential, ErrorCode>,
)
    requires
        valid_attributes(c, password),
        lookup_outcome(
            c,
            v.insert(vault_key(c), stored_record(c, password)),
            r,
            |rec: RecordModel| r matches Ok(x) && recovered_from(x@, rec),
        ),
    ensures
        r matches Ok(x) && x@ == c,
{
    assert(validation_error(c, Seq::empty()) is None);
    let rec = stored_record(c, password);
    let x = r->Ok_0;
    assert(utf16_of(c.username) == rec.username);
    assert(utf16_of(c.target_name) == rec.target_name);
    assert(utf16_of(c.target_alias) == rec.target_alias);
    assert(utf16_of(c.comment) == rec.comment);
}

} // verus!
