//! The metadata ledger: the ordered records of the archives of one storage
//! root, and the operations that list, add, delete, rotate and summarise them.
use vstd::prelude::*;
use crate::text::chars_of;

verus! {

/// Why an archive was made.
#[derive(Clone, Copy, Debug, PartialEq, Eq, Structural)]
pub enum BackupKind {
    Manual,
    Auto,
    PreRestore,
}

/// The stored name of each kind.
pub open spec fn kind_text(k: BackupKind) -> Seq<char> {
    match k {
        BackupKind::Manual => "manual"@,
        BackupKind::Auto => "auto"@,
        BackupKind::PreRestore => "pre-restore"@,
    }
}

impl BackupKind {
    /// The stored name of this kind.
    pub fn as_str(&self) -> (r: &'static str)
        ensures
            r@ == kind_text(*self),
    {
        match self {
            BackupKind::Manual => "manual",
            BackupKind::Auto => "auto",
            BackupKind::PreRestore => "pre-restore",
        }
    }

    /// The kind stored under `name`, if any.
    pub fn from_name(name: &str) -> (r: Option<BackupKind>)
        ensures
            r matches Some(k) ==> kind_text(k) == name@,
            r is None ==> forall|k: BackupKind| kind_text(k) != name@,
    {
        let n = chars_of(name);
        let m = chars_of("manual");
        let a = chars_of("auto");
        let p = chars_of("pre-restore");
        if crate::text::same_chars(&n, &m) {
            Some(BackupKind::Manual)
        } else if crate::text::same_chars(&n, &a) {
            Some(BackupKind::Auto)
        } else if crate::text::same_chars(&n, &p) {
            Some(BackupKind::PreRestore)
        } else {
            assert forall|k: BackupKind| kind_text(k) != name@ by {
                match k {
                    BackupKind::Manual => {},
                    BackupKind::Auto => {},
                    BackupKind::PreRestore => {},
                }
            }
            None
        }
    }
}

/// One archive's record: its identity, where it is stored, and what it holds.
#[derive(Debug)]
pub struct BackupInfo {
    pub id: String,
    pub name: String,
    /// RFC 3339 time of creation, fixed width, so text order is time order.
    pub created_at: String,
    pub size_bytes: u64,
    pub path: String,
    pub backup_type: BackupKind,
    pub included_folders: Vec<String>,
}

/// A record as plain values.
pub struct BackupInfoView {
    pub id: Seq<char>,
    pub name: Seq<char>,
    pub created_at: Seq<char>,
    pub size_bytes: u64,
    pub path: Seq<char>,
    pub backup_type: BackupKind,
    pub included_folders: Seq<String>,
}

impl View for BackupInfo {
    type V = BackupInfoView;

    open spec fn view(&self) -> BackupInfoView {
        BackupInfoView {
            id: self.id@,
            name: self.name@,
            created_at: self.created_at@,
            size_bytes: self.size_bytes,
            path: self.path@,
            backup_type: self.backup_type,
            included_folders: self.included_folders@,
        }
    }
}

/// A copy of the strings of `v`.
pub fn copy_strings(v: &Vec<String>) -> (r: Vec<String>)
    ensures
        r@ == v@,
{
    let mut r: Vec<String> = Vec::new();
    let mut i: usize = 0;
    while i < v.len()
        invariant
            i <= v.len(),
            r@ == v@.take(i as int),
        decreases v.len() - i,
    {
        r.push(v[i].clone());
        i = i + 1;
        assert(r@ =~= v@.take(i as int));
    }
    assert(v@.take(v.len() as int) =~= v@);
    r
}

impl BackupInfo {
    /// A copy of this record.
    pub fn duplicate(&self) -> (r: BackupInfo)
        ensures
            r@ == self@,
    {
        BackupInfo {
            id: self.id.clone(),
            name: self.name.clone(),
            created_at: self.created_at.clone(),
            size_bytes: self.size_bytes,
            path: self.path.clone(),
            backup_type: self.backup_type,
            included_folders: copy_strings(&self.included_folders),
        }
    }
}

/// Why a ledger operation failed.
#[derive(Debug)]
pub enum BackupError {
    /// No record, or no storage root, matches.
    NotFound,
    /// The live directory does not exist.
    SourceMissing,
    /// The record's archive file does not exist.
    ArchiveMissing,
    /// Reading, writing or removing a file failed; the message says why.
    Io(String),
}

impl BackupError {
    /// A copy of this error.
    pub fn duplicate(&self) -> (r: BackupError)
        ensures
            r == *self,
    {
        match self {
            BackupError::NotFound => BackupError::NotFound,
            BackupError::SourceMissing => BackupError::SourceMissing,
            BackupError::ArchiveMissing => BackupError::ArchiveMissing,
            BackupError::Io(m) => BackupError::Io(m.clone()),
        }
    }

    /// The message shown for this error.
    pub fn message(&self) -> (r: String)
        ensures
            self matches BackupError::NotFound ==> r@ == "Backup not found"@,
            self matches BackupError::SourceMissing ==> r@ == "Server path does not exist"@,
            self matches BackupError::ArchiveMissing ==> r@ == "Backup file does not exist"@,
            self matches BackupError::Io(m) ==> r@ == m@,
    {
        match self {
            BackupError::NotFound => "Backup not found".to_owned(),
            BackupError::SourceMissing => "Server path does not exist".to_owned(),
            BackupError::ArchiveMissing => "Backup file does not exist".to_owned(),
            BackupError::Io(m) => m.clone(),
        }
    }
}

/// Does some record of `s` have the id `id`?
pub open spec fn has_id(s: Seq<BackupInfo>, id: Seq<char>) -> bool {
    exists|i: int| 0 <= i < s.len() && (#[trigger] s[i]).id@ == id
}

/// Is `i` the first index of a record with the id `id`?
pub open spec fn first_with_id(s: Seq<BackupInfo>, id: Seq<char>, i: int) -> bool {
    &&& 0 <= i < s.len()
    &&& s[i].id@ == id
    &&& forall|j: int| 0 <= j < i ==> (#[trigger] s[j]).id@ != id
}

/// Do the records of `s` have pairwise different ids?
pub open spec fn unique_ids(s: Seq<BackupInfo>) -> bool {
    forall|i: int, j: int|
        #![trigger s[i], s[j]]
        0 <= i < j < s.len() ==> s[i].id@ != s[j].id@
}

/// In a ledger of unique ids, once the record with an id is taken out no
/// record has that id, so deleting it again fails with `NotFound`, as
/// `remove_backup` states.
pub proof fn lemma_delete_is_final(s: Seq<BackupInfo>, id: Seq<char>, i: int)
    requires
        unique_ids(s),
        first_with_id(s, id, i),
    ensures
        !has_id(s.remove(i), id),
        unique_ids(s.remove(i)),
{
    let t = s.remove(i);
    assert forall|j: int| 0 <= j < t.len() implies (#[trigger] t[j]).id@ != id by {
        if j < i {
            assert(t[j] == s[j]);
        } else {
            assert(t[j] == s[j + 1]);
        }
    }
    assert forall|a: int, b: int| 0 <= a < b < t.len() implies t[a].id@ != t[b].id@ by {
        let a0 = if a < i { a } else { a + 1 };
        let b0 = if b < i { b } else { b + 1 };
        assert(t[a] == s[a0] && t[b] == s[b0]);
    }
}

/// The index of the first record with the id `id`, if there is one.
pub fn find_backup(ledger: &Vec<BackupInfo>, id: &str) -> (r: Option<usize>)
    ensures
        r matches Some(i) ==> first_with_id(ledger@, id@, i as int),
        r is None <==> !has_id(ledger@, id@),
{
    let want = chars_of(id);
    let mut i: usize = 0;
    while i < ledger.len()
        invariant
            i <= ledger.len(),
            want@ == id@,
            forall|j: int| 0 <= j < i ==> (#[trigger] ledger@[j]).id@ != id@,
        decreases ledger.len() - i,
    {
        let have = chars_of(ledger[i].id.as_str());
        if crate::text::same_chars(&have, &want) {
            return Some(i);
        }
        i = i + 1;
    }
    None
}

/// Add a newly created record at the end of the ledger.
pub fn record_backup(ledger: &mut Vec<BackupInfo>, record: BackupInfo)
    ensures
        final(ledger)@ == old(ledger)@.push(record),
{
    ledger.push(record);
}

/// Take the record with the id `id` out of the ledger and hand it back, so
/// that its archive file can be removed. Fails with `NotFound`, leaving the
/// ledger as it was, when no record has that id.
pub fn remove_backup(ledger: &mut Vec<BackupInfo>, id: &str) -> (r: Result<BackupInfo, BackupError>)
    ensures
        r is Err <==> !has_id(old(ledger)@, id@),
        r matches Err(e) ==> e == BackupError::NotFound && final(ledger)@ == old(ledger)@,
        r matches Ok(b) ==> exists|i: int|
            first_with_id(old(ledger)@, id@, i) && b == old(ledger)@[i] && final(ledger)@ == old(
                ledger,
            )@.remove(i),
        unique_ids(old(ledger)@) ==> unique_ids(final(ledger)@) && !has_id(final(ledger)@, id@),
{
    match find_backup(ledger, id) {
        Some(i) => {
            let b = ledger.remove(i);
            assert(first_with_id(old(ledger)@, id@, i as int));
            proof {
                if unique_ids(old(ledger)@) {
                    lemma_delete_is_final(old(ledger)@, id@, i as int);
                }
            }
            Ok(b)
        },
        None => Err(BackupError::NotFound),
    }
}

} // verus!
