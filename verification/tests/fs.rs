use lemonkee::fs::{
    fs_stat, fs_write, io_error, watch_events, watch_failure, watched_directory, watched_file,
    ChangeKind, ChangedPath, FileStat, Header, IoKind, WatchedDirectory, WatcherIds,
};

#[test]
fn codes_of_errors() {
    let codes = [
        (IoKind::NotFound, "ENOENT"),
        (IoKind::PermissionDenied, "EACCES"),
        (IoKind::AlreadyExists, "EEXIST"),
        (IoKind::NotADirectory, "ENOTDIR"),
        (IoKind::IsADirectory, "EISDIR"),
        (IoKind::DirectoryNotEmpty, "ENOTEMPTY"),
        (IoKind::StorageFull, "ENOSPC"),
        (IoKind::ReadOnlyFilesystem, "EROFS"),
        (IoKind::InvalidInput, "EINVAL"),
        (IoKind::Other, "EIO"),
    ];
    for (kind, code) in codes {
        assert_eq!(io_error(kind, "No such file"), format!("{code}: No such file"));
    }
}

#[test]
fn names_of_files_to_write() {
    let text = |header: &str| Header::Text(header.to_string());
    assert_eq!(fs_write(text("/tmp/a%20b%2f%C3%BC"), true), Ok("/tmp/a b/\u{fc}".to_string()));
    assert_eq!(fs_write(text("100%"), true), Ok("100%".to_string()));
    assert_eq!(fs_write(text("%4"), true), Ok("%4".to_string()));
    assert_eq!(fs_write(text("%zz"), true), Ok("%zz".to_string()));
    assert_eq!(fs_write(text("a"), false), Err("EINVAL: Expected a raw byte body".to_string()));
    assert_eq!(fs_write(Header::Missing, true), Err("EINVAL: Missing path header".to_string()));
    assert_eq!(fs_write(Header::NotText("odd".to_string()), true), Err("EINVAL: odd".to_string()));
    assert_eq!(
        fs_write(text("%ff"), true),
        Err("EINVAL: invalid utf-8 sequence of 1 bytes from index 0".to_string())
    );
}

#[test]
fn times_of_files() {
    let stat = fs_stat(5, false, 1_700_000_000_123, false, Some(501));
    assert_eq!(stat, FileStat { size: 5, mtime: 1_700_000_000_123, is_dir: false, uid: Some(501) });
    assert_eq!(fs_stat(0, true, 1500, true, None).mtime, -1500);
    assert_eq!(fs_stat(0, false, 0x7fff_ffff_ffff_ffff, false, None).mtime, i64::MAX);
    assert_eq!(fs_stat(0, false, 0x8000_0000_0000_0000, false, None).mtime, i64::MIN);
    assert_eq!(fs_stat(0, false, u128::MAX, false, None).mtime, -1);
    assert_eq!(fs_stat(0, true, u128::MAX, false, None).mtime, 1);
    assert_eq!(fs_stat(0, false, 0x1_0000_0000_0000_0005, false, None).mtime, 5);
}

#[test]
fn what_is_watched() {
    assert_eq!(watched_directory(true, false), Ok(WatchedDirectory::Itself));
    assert_eq!(watched_directory(false, true), Ok(WatchedDirectory::Around));
    assert_eq!(
        watched_directory(false, false),
        Err("EINVAL: File has no parent directory".to_string())
    );
    assert_eq!(watched_file(WatchedDirectory::Itself, false), Ok(false));
    assert_eq!(watched_file(WatchedDirectory::Around, true), Ok(true));
    assert_eq!(
        watched_file(WatchedDirectory::Around, false),
        Err("EINVAL: Missing file name".to_string())
    );
}

#[test]
fn numbers_of_watchers() {
    let mut ids = WatcherIds::new();
    assert_eq!(ids.take(), Ok(1));
    assert_eq!(ids.take(), Ok(2));
    let mut last = WatcherIds { next: u32::MAX };
    assert_eq!(last.take(), Err("Too many file watchers".to_string()));
    assert_eq!(last.next, u32::MAX);
}

fn paths() -> Vec<ChangedPath> {
    vec![
        ChangedPath { path: "/a/x.kdbx".to_string(), is_target: true },
        ChangedPath { path: "/a/x.tmp".to_string(), is_target: false },
    ]
}

fn told(kind: ChangeKind, one_file: bool) -> Vec<(u32, String, String)> {
    watch_events(7, kind, &paths(), one_file)
        .iter()
        .map(|event| (event.id, event.path.clone(), event.kind.to_string()))
        .collect()
}

#[test]
fn changes_are_told() {
    let target = |kind: &str| (7, "/a/x.kdbx".to_string(), kind.to_string());
    let other = |kind: &str| (7, "/a/x.tmp".to_string(), kind.to_string());
    for kind in [ChangeKind::Create, ChangeKind::Remove, ChangeKind::Rename] {
        assert_eq!(told(kind, true), vec![target("rename")]);
        assert_eq!(told(kind, false), vec![target("rename"), other("rename")]);
    }
    for kind in [ChangeKind::Modify, ChangeKind::Any, ChangeKind::Other] {
        assert_eq!(told(kind, true), vec![target("change")]);
        assert_eq!(told(kind, false), vec![target("change"), other("change")]);
    }
    assert!(told(ChangeKind::Access, false).is_empty());
    assert_eq!(watch_failure(7, "gone"), "File watcher 7: gone");
}
