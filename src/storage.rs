//! Where one managed directory's archives, ledger and settings are stored,
//! and the settings themselves.
use vstd::prelude::*;
use crate::exclude::is_sep;
use crate::ledger::BackupError;
use crate::text::{chars_of, string_from_chars};

verus! {

/// `part` under the directory `base`, with `/` between them where `base` does
/// not already end in a separator.
pub open spec fn joined(base: Seq<char>, part: Seq<char>) -> Seq<char> {
    if base.len() == 0 {
        part
    } else if is_sep(base.last()) {
        base + part
    } else {
        base + seq!['/'] + part
    }
}

/// `part` under the directory `base`.
pub fn join_path(base: &str, part: &str) -> (r: String)
    ensures
        r@ == joined(base@, part@),
{
    let mut b = chars_of(base);
    let p = chars_of(part);
    if b.len() > 0 && !(b[b.len() - 1] == '/' || b[b.len() - 1] == '\\') {
        b.push('/');
    }
    let ghost mid = b@;
    let mut i: usize = 0;
    while i < p.len()
        invariant
            i <= p.len(),
            b@ == mid + p@.take(i as int),
        decreases p.len() - i,
    {
        b.push(p[i]);
        i = i + 1;
        assert(b@ =~= mid + p@.take(i as int));
    }
    assert(p@.take(p.len() as int) =~= p@);
    assert(b@ =~= joined(base@, part@));
    string_from_chars(&b)
}

/// The ledger file of a storage root.
pub fn get_metadata_path(backup_dir: &str) -> (r: String)
    ensures
        r@ == joined(backup_dir@, "backups.json"@),
{
    join_path(backup_dir, "backups.json")
}

/// The settings file of a storage root.
pub fn settings_path(backup_dir: &str) -> (r: String)
    ensures
        r@ == joined(backup_dir@, "settings.json"@),
{
    join_path(backup_dir, "settings.json")
}

/// The default storage root of `server_id` under the documents directory `docs`.
pub open spec fn default_root(docs: Seq<char>, server_id: Seq<char>) -> Seq<char> {
    joined(joined(joined(docs, "VoidLink"@), "Backups"@), server_id)
}

/// Relies on `dirs::document_dir`: the user's documents directory, where the
/// platform has one and its path is valid UTF-8; it depends on the
/// environment, so nothing is stated of it.
#[verifier::external_body]
fn document_dir() -> (r: Option<String>) {
    dirs::document_dir().and_then(|p| p.to_str().map(|s| s.to_string()))
}

/// The storage root of `server_id`: under `custom_path` when one is given,
/// else under `documents`, the user's documents directory. Fails when neither is known.
pub fn storage_root(server_id: &str, custom_path: Option<&str>, documents: Option<&str>) -> (r:
    Result<String, BackupError>)
    ensures
        custom_path matches Some(p) ==> r matches Ok(d) && d@ == joined(p@, server_id@),
        custom_path is None ==> (documents matches Some(docs) ==> r matches Ok(d) && d@
            == default_root(docs@, server_id@)),
        custom_path is None && documents is None ==> (r matches Err(BackupError::Io(m)) && m@
            == "Could not find Documents directory"@),
{
    match custom_path {
        Some(p) => Ok(join_path(p, server_id)),
        None => match documents {
            Some(docs) => {
                let a = join_path(docs, "VoidLink");
                let b = join_path(a.as_str(), "Backups");
                Ok(join_path(b.as_str(), server_id))
            },
            None => Err(BackupError::Io("Could not find Documents directory".to_owned())),
        },
    }
}

/// The storage root of `server_id`: under `custom_path` when one is given,
/// else under the user's documents directory, as `storage_root` says.
pub fn get_backup_dir(server_id: &str, custom_path: Option<&str>) -> (r: Result<String, BackupError>)
    ensures
        custom_path matches Some(p) ==> r matches Ok(d) && d@ == joined(p@, server_id@),
        custom_path is None ==> (r matches Ok(d) ==> exists|docs: Seq<char>|
            d@ == default_root(docs, server_id@)),
        custom_path is None ==> (r matches Err(e) ==> e matches BackupError::Io(m) && m@
            == "Could not find Documents directory"@),
{
    match custom_path {
        Some(p) => storage_root(server_id, Some(p), None),
        None => {
            let docs = document_dir();
            match docs {
                Some(d) => {
                    let r = storage_root(server_id, None, Some(d.as_str()));
                    assert(r matches Ok(x) && x@ == default_root(d@, server_id@));
                    r
                },
                None => storage_root(server_id, None, None),
            }
        },
    }
}

/// Per managed directory: whether automatic snapshots run and how often,
/// how many archives are kept, where they are stored, and which folders go in.
#[derive(Debug)]
pub struct BackupSettings {
    pub enabled: bool,
    pub interval_minutes: u32,
    pub max_backups: u32,
    pub custom_path: Option<String>,
    pub included_folders: Vec<String>,
}

/// The folders included by default: the three standard world folders.
pub open spec fn default_folder_texts() -> Seq<Seq<char>> {
    seq!["world"@, "world_nether"@, "world_the_end"@]
}

impl Default for BackupSettings {
    /// Disabled, every 30 minutes, 5 archives kept, the default storage root,
    /// and the three standard world folders.
    fn default() -> (r: BackupSettings)
        ensures
            r.enabled == false,
            r.interval_minutes == 30,
            r.max_backups == 5,
            r.custom_path is None,
            r.included_folders@.len() == 3,
            forall|i: int|
                0 <= i < 3 ==> (#[trigger] r.included_folders@[i])@ == default_folder_texts()[i],
    {
        let mut f: Vec<String> = Vec::new();
        f.push("world".to_owned());
        f.push("world_nether".to_owned());
        f.push("world_the_end".to_owned());
        BackupSettings {
            enabled: false,
            interval_minutes: 30,
            max_backups: 5,
            custom_path: None,
            included_folders: f,
        }
    }
}

} // verus!
