//! The backup and restore engine, over one alias's repository entry.
//!
//! The caller reads the source file, the entry (its backed-up bytes and its
//! history) and the destination, hands them over as values, and writes back
//! what changed.

use vstd::prelude::*;

use crate::error::SyncError;
use crate::history::{history_line, line_text, string_views};
use crate::timestamp::{local_now, Timestamp};

verus! {

/// What an alias's repository entry holds: the backed-up bytes, once there
/// has been a backup, and the history lines, oldest first.
pub struct RepoEntry {
    pub data: Option<Vec<u8>>,
    pub history: Vec<String>,
}

/// The value of a repository entry.
pub struct EntryView {
    pub data: Option<Seq<u8>>,
    pub history: Seq<Seq<char>>,
}

impl View for RepoEntry {
    type V = EntryView;

    open spec fn view(&self) -> EntryView {
        EntryView {
            data: match self.data {
                Some(d) => Some(d@),
                None => None,
            },
            history: string_views(self.history@),
        }
    }
}

/// What a backup did.
#[derive(Debug, Clone, Copy, PartialEq, Eq)]
pub enum BackupOutcome {
    /// The entry already held the same bytes; nothing was written.
    AlreadyBackedUp,
    /// The bytes were copied and a history line appended.
    Copied,
}

/// Whether a backup without `force` finds the entry already up to date.
pub open spec fn up_to_date(e: EntryView, source: Seq<u8>) -> bool {
    e.data == Some(source)
}

/// The entry after a backup of `source` recorded as `line`: unchanged when
/// `force` is off and it already holds the same bytes; otherwise holding
/// `source`, with `line` appended to the history.
pub open spec fn backup_effect(e: EntryView, source: Seq<u8>, force: bool, line: Seq<char>) -> EntryView {
    if !force && up_to_date(e, source) {
        e
    } else {
        EntryView { data: Some(source), history: e.history.push(line) }
    }
}

/// What a restore into a destination holding `dest` gives: the bytes the
/// destination then holds, or the error. `NotFound` when the entry holds no
/// backup; `WouldOverwrite` when the destination exists and `overwrite` is off.
pub open spec fn restore_outcome(e: EntryView, dest: Option<Seq<u8>>, overwrite: bool) -> Result<Seq<u8>, SyncError> {
    match e.data {
        None => Err(SyncError::NotFound),
        Some(d) => if dest is Some && !overwrite {
            Err(SyncError::WouldOverwrite)
        } else {
            Ok(d)
        },
    }
}

/// Whether two files hold the same bytes: sizes first, then byte by byte.
pub fn compare_files(a: &[u8], b: &[u8]) -> (r: bool)
    ensures
        r == (a@ == b@),
{
    if a.len() != b.len() {
        return false;
    }
    let n = a.len();
    let mut i: usize = 0;
    while i < n
        invariant
            n == a@.len(),
            n == b@.len(),
            i <= n,
            forall|j: int| 0 <= j < i ==> a@[j] == b@[j],
        decreases n - i,
    {
        if a[i] != b[i] {
            return false;
        }
        i = i + 1;
    }
    assert(a@ =~= b@);
    true
}

/// Backs up `source`, read from `source_path`, into `entry` at `stamp`.
/// Without `force`, an entry that already holds the same bytes is left as it
/// is; otherwise the entry takes the bytes and the history gains the line
/// `[YYYY-MM-DD HH:MM:SS] <source_path>`.
pub fn copy_file_to_repo(entry: &mut RepoEntry, source: Vec<u8>, source_path: &str, force: bool, stamp: &Timestamp) -> (r: BackupOutcome)
    ensures
        final(entry)@ == backup_effect(old(entry)@, source@, force, line_text(*stamp, source_path@)),
        r == (if !force && up_to_date(old(entry)@, source@) { BackupOutcome::AlreadyBackedUp } else { BackupOutcome::Copied }),
{
    if !force {
        let same = match &entry.data {
            Some(stored) => compare_files(stored.as_slice(), source.as_slice()),
            None => false,
        };
        if same {
            return BackupOutcome::AlreadyBackedUp;
        }
    }
    let line = history_line(stamp, source_path);
    entry.data = Some(source);
    entry.history.push(line);
    assert(final(entry)@.history =~= old(entry)@.history.push(line_text(*stamp, source_path@)));
    BackupOutcome::Copied
}

/// Backs up `source` into `entry` as `copy_file_to_repo` does, stamped with
/// the local time now: whatever that time is, it is a valid one, and the
/// entry changes exactly as a backup at that time would change it. When the
/// clock gives no time, fails with `IoFailure` and leaves the entry as it is.
pub fn backup_now(entry: &mut RepoEntry, source: Vec<u8>, source_path: &str, force: bool) -> (r: Result<BackupOutcome, SyncError>)
    ensures
        r matches Ok(o) ==> {
            &&& exists|t: Timestamp| t.wf() && final(entry)@ == backup_effect(old(entry)@, source@, force, line_text(t, source_path@))
            &&& o == (if !force && up_to_date(old(entry)@, source@) { BackupOutcome::AlreadyBackedUp } else { BackupOutcome::Copied })
        },
        r is Err ==> (r matches Err(e) && e is IoFailure) && *final(entry) == *old(entry),
{
    match local_now() {
        Some(stamp) => {
            let r = copy_file_to_repo(entry, source, source_path, force, &stamp);
            assert(stamp.wf() && final(entry)@ == backup_effect(old(entry)@, source@, force, line_text(stamp, source_path@)));
            Ok(r)
        },
        None => Err(SyncError::IoFailure(String::from_str("the system clock gives no valid local time"))),
    }
}

/// Restores the entry's bytes into a destination that holds `dest` (`None`
/// when nothing is there). Fails with `NotFound` when the entry holds no
/// backup, and with `WouldOverwrite` when the destination exists and
/// `overwrite` is off; on failure the destination is untouched.
pub fn restore_file(entry: &RepoEntry, dest: &mut Option<Vec<u8>>, overwrite: bool) -> (r: Result<(), SyncError>)
    ensures
        match restore_outcome(entry@, match *old(dest) { Some(d) => Some(d@), None => None }, overwrite) {
            Ok(bytes) => r is Ok && (*final(dest) matches Some(d) && d@ == bytes),
            Err(e) => r == Err::<(), SyncError>(e) && *final(dest) == *old(dest),
        },
{
    match &entry.data {
        None => Err(SyncError::NotFound),
        Some(stored) => {
            if dest.is_some() && !overwrite {
                return Err(SyncError::WouldOverwrite);
            }
            let bytes = stored.clone();
            assert(bytes@ =~= stored@);
            *dest = Some(bytes);
            Ok(())
        },
    }
}

/// Backing up an unchanged source twice without `force` records it once: the
/// second backup leaves the entry as the first left it, and the history has
/// grown by exactly one line unless the entry already held those bytes.
pub proof fn lemma_backup_idempotent(e: EntryView, source: Seq<u8>, first: Seq<char>, second: Seq<char>)
    ensures
        ({
            let once = backup_effect(e, source, false, first);
            &&& backup_effect(once, source, false, second) == once
            &&& once.history.len() == e.history.len() + if up_to_date(e, source) { 0int } else { 1int }
        }),
{
}

/// A backup of bytes that differ from those of the previous backup, of the
/// same size or not, always copies and appends a history line.
pub proof fn lemma_changed_source_recorded(e: EntryView, before: Seq<u8>, after: Seq<u8>, force: bool, first: Seq<char>, second: Seq<char>)
    requires
        before != after,
    ensures
        ({
            let once = backup_effect(e, before, force, first);
            let twice = backup_effect(once, after, false, second);
            &&& twice.data == Some(after)
            &&& twice.history == once.history.push(second)
            &&& twice.history.len() == once.history.len() + 1
        }),
{
}

/// Restoring a backed-up entry without `overwrite` over a destination that
/// exists fails with `WouldOverwrite` (and `restore_file` then leaves the
/// destination as it was).
pub proof fn lemma_restore_keeps_existing(e: EntryView, dest: Seq<u8>)
    requires
        e.data is Some,
    ensures
        restore_outcome(e, Some(dest), false) == Err::<Seq<u8>, SyncError>(SyncError::WouldOverwrite),
{
}

} // verus!
