//! The config-file watcher: each watched JSON file keeps its last parsed
//! value and the stamp (mtime and size) it was read at. A reload takes
//! what the caller observed on disk and decides whether anything changed;
//! a commit records what was just written.
use vstd::prelude::*;

verus! {

/// What identifies one on-disk version of a file.
#[derive(Clone, Copy, Debug, PartialEq, Eq, Structural)]
pub struct FileStamp {
    pub mtime_ns: u64,
    pub size: u64,
}

/// A watched config file: the latest successfully parsed value and the
/// stamp it carries.
pub struct JsonConfigFile<T> {
    pub data: T,
    pub stamp: Option<FileStamp>,
}

/// What one observation does to the watcher: an unreadable file or an
/// unchanged stamp keeps everything; a changed stamp with a parse failure
/// keeps the previous value (and stamp, so a later fix is seen); a
/// changed stamp with a parsed value takes both over.
pub open spec fn spec_reload<T>(
    data: T,
    stamp: Option<FileStamp>,
    on_disk: Option<(FileStamp, Option<T>)>,
) -> (bool, T, Option<FileStamp>) {
    match on_disk {
        None => (false, data, stamp),
        Some((st, parsed)) => {
            if stamp == Some(st) {
                (false, data, stamp)
            } else {
                match parsed {
                    None => (false, data, stamp),
                    Some(v) => (true, v, Some(st)),
                }
            }
        },
    }
}

impl<T> JsonConfigFile<T> {
    pub fn new(initial: T, stamp: Option<FileStamp>) -> (r: Self)
        ensures
            r.data == initial,
            r.stamp == stamp,
    {
        JsonConfigFile { data: initial, stamp }
    }

    /// Folds one on-disk observation in and says whether the value
    /// changed. `on_disk` is `None` when the file could not be read, and
    /// carries the current stamp plus the parse outcome otherwise.
    pub fn maybe_reload(&mut self, on_disk: Option<(FileStamp, Option<T>)>) -> (reloaded: bool)
        ensures
            (reloaded, final(self).data, final(self).stamp) == spec_reload(
                old(self).data,
                old(self).stamp,
                on_disk,
            ),
    {
        match on_disk {
            None => false,
            Some((st, parsed)) => {
                let same = match self.stamp {
                    Some(prev) => prev.mtime_ns == st.mtime_ns && prev.size == st.size,
                    None => false,
                };
                if same {
                    false
                } else {
                    match parsed {
                        None => false,
                        Some(v) => {
                            self.data = v;
                            self.stamp = Some(st);
                            true
                        },
                    }
                }
            },
        }
    }

    /// Records a value this process just wrote, together with the stamp
    /// the write left on disk.
    pub fn commit(&mut self, value: T, new_stamp: FileStamp)
        ensures
            final(self).data == value,
            final(self).stamp == Some(new_stamp),
    {
        self.data = value;
        self.stamp = Some(new_stamp);
    }
}

/// Reloading an unmodified file reports no change and keeps the value:
/// observing the same stamp again never reloads.
pub proof fn lemma_reload_unmodified<T>(data: T, st: FileStamp, parsed: Option<T>)
    ensures
        spec_reload(data, Some(st), Some((st, parsed))) == (false, data, Some(st)),
{
}

/// A commit followed by a reload yields the committed value: whether the
/// file looks unchanged or was re-read and parsed back, the value after
/// the reload is the one committed.
pub proof fn lemma_commit_then_reload<T>(committed: T, st: FileStamp, st2: FileStamp)
    ensures
        spec_reload(committed, Some(st), Some((st, None::<T>))).1 == committed,
        spec_reload(committed, Some(st), Some((st2, Some(committed)))).1 == committed,
        spec_reload(committed, Some(st), None::<(FileStamp, Option<T>)>).1 == committed,
{
}

} // verus!
