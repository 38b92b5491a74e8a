use resctl::watcher::{FileStamp, JsonConfigFile};

fn st(mtime_ns: u64, size: u64) -> FileStamp {
    FileStamp { mtime_ns, size }
}

#[test]
fn reload_takes_changed_files() {
    let mut f: JsonConfigFile<u32> = JsonConfigFile::new(10, None);
    assert!(f.maybe_reload(Some((st(1, 5), Some(42)))));
    assert_eq!(f.data, 42);
}

#[test]
fn reloading_unmodified_file_reports_no_change() {
    let mut f: JsonConfigFile<u32> = JsonConfigFile::new(10, None);
    f.maybe_reload(Some((st(1, 5), Some(42))));
    // the same stamp again: nothing reloads
    assert!(!f.maybe_reload(Some((st(1, 5), Some(99)))));
    assert_eq!(f.data, 42);
}

#[test]
fn parse_failure_keeps_previous_value() {
    let mut f: JsonConfigFile<u32> = JsonConfigFile::new(10, None);
    f.maybe_reload(Some((st(1, 5), Some(42))));
    assert!(!f.maybe_reload(Some((st(2, 6), None))));
    assert_eq!(f.data, 42);
}

#[test]
fn unreadable_file_keeps_previous_value() {
    let mut f: JsonConfigFile<u32> = JsonConfigFile::new(10, None);
    f.maybe_reload(Some((st(1, 5), Some(42))));
    assert!(!f.maybe_reload(None));
    assert_eq!(f.data, 42);
}

#[test]
fn commit_then_reload_yields_committed_value() {
    let mut f: JsonConfigFile<u32> = JsonConfigFile::new(10, None);
    f.commit(7, st(2, 9));
    // the file looks exactly as committed: no reload, the value stands
    assert!(!f.maybe_reload(Some((st(2, 9), Some(7)))));
    assert_eq!(f.data, 7);
    // an external atomic rewrite of the same content still reads back 7
    assert!(f.maybe_reload(Some((st(3, 9), Some(7)))));
    assert_eq!(f.data, 7);
}
