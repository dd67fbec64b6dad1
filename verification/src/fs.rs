//! Files as the user interface sees them: error codes, times and changes.

use vstd::prelude::*;

use crate::encoding;
use crate::text;

verus! {

/// What kind of error the system reports.
#[derive(Clone, Copy, Debug, PartialEq, Eq, Structural)]
pub enum IoKind {
    NotFound,
    PermissionDenied,
    AlreadyExists,
    NotADirectory,
    IsADirectory,
    DirectoryNotEmpty,
    StorageFull,
    ReadOnlyFilesystem,
    InvalidInput,
    Other,
}

/// The code of an error.
pub open spec fn io_code(kind: IoKind) -> Seq<char> {
    match kind {
        IoKind::NotFound => "ENOENT"@,
        IoKind::PermissionDenied => "EACCES"@,
        IoKind::AlreadyExists => "EEXIST"@,
        IoKind::NotADirectory => "ENOTDIR"@,
        IoKind::IsADirectory => "EISDIR"@,
        IoKind::DirectoryNotEmpty => "ENOTEMPTY"@,
        IoKind::StorageFull => "ENOSPC"@,
        IoKind::ReadOnlyFilesystem => "EROFS"@,
        IoKind::InvalidInput => "EINVAL"@,
        IoKind::Other => "EIO"@,
    }
}

/// The message for an error of the system: its code and how the system words it.
pub fn io_error(kind: IoKind, message: &str) -> (r: String)
    ensures
        r@ == io_code(kind) + ": "@ + message@,
{
    let code = match kind {
        IoKind::NotFound => "ENOENT",
        IoKind::PermissionDenied => "EACCES",
        IoKind::AlreadyExists => "EEXIST",
        IoKind::NotADirectory => "ENOTDIR",
        IoKind::IsADirectory => "EISDIR",
        IoKind::DirectoryNotEmpty => "ENOTEMPTY",
        IoKind::StorageFull => "ENOSPC",
        IoKind::ReadOnlyFilesystem => "EROFS",
        IoKind::InvalidInput => "EINVAL",
        IoKind::Other => "EIO",
    };
    text::concat3(code, ": ", message)
}

// ---------------------------------------------------------------------------
// Writing
// ---------------------------------------------------------------------------

/// The header of a request that names the file.
pub enum Header {
    Missing,
    /// Its value is not text; this is how that is worded.
    NotText(String),
    Text(String),
}

/// The file that a request is to write. Its name comes percent-encoded in a header,
/// and the data as raw bytes.
pub fn fs_write(header: Header, raw_body: bool) -> (r: Result<String, String>)
    ensures
        text::text_outcome(r) == match header {
            Header::Missing => Err("EINVAL: Missing path header"@),
            Header::NotText(message) => Err("EINVAL: "@ + message@),
            Header::Text(encoded) => match encoding::percent_text(encoded@) {
                Ok(path) => if raw_body {
                    Ok(path)
                } else {
                    Err("EINVAL: Expected a raw byte body"@)
                },
                Err(message) => Err("EINVAL: "@ + message),
            },
        },
{
    let encoded = match header {
        Header::Missing => return Err("EINVAL: Missing path header".to_owned()),
        Header::NotText(message) => return Err(text::concat("EINVAL: ", message.as_str())),
        Header::Text(encoded) => encoded,
    };
    let path = match encoding::percent_decode(encoded.as_str()) {
        Ok(path) => path,
        Err(message) => return Err(text::concat("EINVAL: ", message.as_str())),
    };
    if !raw_body {
        return Err("EINVAL: Expected a raw byte body".to_owned());
    }
    Ok(path)
}

// ---------------------------------------------------------------------------
// Metadata
// ---------------------------------------------------------------------------

/// What the user interface is told about a file. The time is in milliseconds from
/// the beginning of 1970.
#[derive(Clone, Copy, Debug, PartialEq, Eq, Structural)]
pub struct FileStat {
    pub size: u64,
    pub mtime: i64,
    pub is_dir: bool,
    pub uid: Option<u32>,
}

/// The number that the lowest 64 bits of a number stand for in two's complement.
pub open spec fn low_bits(n: nat) -> int {
    let low = n % 0x1_0000_0000_0000_0000;
    if low < 0x8000_0000_0000_0000 {
        low as int
    } else {
        low - 0x1_0000_0000_0000_0000
    }
}

fn truncate(n: u128) -> (r: i64)
    ensures
        r == low_bits(n as nat),
{
    let low: u64 = (n % 0x1_0000_0000_0000_0000) as u64;
    if low < 0x8000_0000_0000_0000 {
        low as i64
    } else {
        let distance: u64 = 0xffff_ffff_ffff_ffff - low;
        -(distance as i64) - 1
    }
}

/// What the user interface is told about a file. `before` tells that it was last
/// changed so many milliseconds before 1970, and not after. The one number of 64 bits
/// that has no opposite is left out there.
pub fn fs_stat(size: u64, before: bool, millis: u128, is_dir: bool, uid: Option<u32>) -> (r: FileStat)
    requires
        before ==> low_bits(millis as nat) != i64::MIN,
    ensures
        r == (FileStat {
            size,
            mtime: if before {
                (-low_bits(millis as nat)) as i64
            } else {
                low_bits(millis as nat) as i64
            },
            is_dir,
            uid,
        }),
{
    let time: i64 = truncate(millis);
    let mtime: i64 = if before {
        -time
    } else {
        time
    };
    FileStat { size, mtime, is_dir, uid }
}

/// A time that 64 bits hold is told as it is.
pub proof fn law_time_is_kept(millis: nat)
    requires
        millis < 0x8000_0000_0000_0000,
    ensures
        low_bits(millis) == millis,
{
}

// ---------------------------------------------------------------------------
// Watching
// ---------------------------------------------------------------------------

/// Which directory is watched.
#[derive(Clone, Copy, Debug, PartialEq, Eq, Structural)]
pub enum WatchedDirectory {
    /// What was asked for is a directory.
    Itself,
    /// The directory around a file: that survives a file which is replaced as a whole.
    Around,
}

/// Which directory to watch.
pub fn watched_directory(is_directory: bool, has_parent: bool) -> (r: Result<
    WatchedDirectory,
    String,
>)
    ensures
        text::outcome(r) == if is_directory {
            Ok(WatchedDirectory::Itself)
        } else if has_parent {
            Ok(WatchedDirectory::Around)
        } else {
            Err("EINVAL: File has no parent directory"@)
        },
{
    if is_directory {
        Ok(WatchedDirectory::Itself)
    } else if has_parent {
        Ok(WatchedDirectory::Around)
    } else {
        Err("EINVAL: File has no parent directory".to_owned())
    }
}

/// Whether events are filtered for one file in the directory. A file without a name
/// cannot be watched.
pub fn watched_file(directory: WatchedDirectory, has_name: bool) -> (r: Result<bool, String>)
    ensures
        text::outcome(r) == match directory {
            WatchedDirectory::Itself => Ok(false),
            WatchedDirectory::Around => if has_name {
                Ok(true)
            } else {
                Err("EINVAL: Missing file name"@)
            },
        },
{
    match directory {
        WatchedDirectory::Itself => Ok(false),
        WatchedDirectory::Around => if has_name {
            Ok(true)
        } else {
            Err("EINVAL: Missing file name".to_owned())
        },
    }
}

/// The numbers by which watchers go.
#[derive(Clone, Copy, Debug, PartialEq, Eq, Structural)]
pub struct WatcherIds {
    pub next: u32,
}

impl WatcherIds {
    /// Numbers from one on.
    pub fn new() -> (r: WatcherIds)
        ensures
            r.next == 1,
    {
        WatcherIds { next: 1 }
    }

    /// A number that was not given out before: each is greater than those before it.
    pub fn take(&mut self) -> (r: Result<u32, String>)
        ensures
            match r {
                Ok(id) => id == old(self).next && final(self).next == old(self).next + 1,
                Err(e) => old(self).next == u32::MAX && *final(self) == *old(self) && e@
                    == "Too many file watchers"@,
            },
    {
        match self.next.checked_add(1) {
            Some(after) => {
                let id: u32 = self.next;
                self.next = after;
                Ok(id)
            },
            None => Err("Too many file watchers".to_owned()),
        }
    }
}

/// What happened to a file.
#[derive(Clone, Copy, Debug, PartialEq, Eq, Structural)]
pub enum ChangeKind {
    Create,
    Remove,
    Rename,
    Modify,
    Any,
    Other,
    Access,
}

/// How a change is told. That a file was read is not.
pub open spec fn change_name(kind: ChangeKind) -> Option<Seq<char>> {
    match kind {
        ChangeKind::Create | ChangeKind::Remove | ChangeKind::Rename => Some("rename"@),
        ChangeKind::Modify | ChangeKind::Any | ChangeKind::Other => Some("change"@),
        ChangeKind::Access => None,
    }
}

/// A path in an event, and whether it is the file that is watched.
pub struct ChangedPath {
    pub path: String,
    pub is_target: bool,
}

/// What the user interface is told of a change.
pub struct WatchEvent {
    pub id: u32,
    pub path: String,
    pub kind: &'static str,
}

/// The model of such an event.
pub struct Change {
    pub id: u32,
    pub path: Seq<char>,
    pub kind: Seq<char>,
}

impl View for WatchEvent {
    type V = Change;

    open spec fn view(&self) -> Change {
        Change { id: self.id, path: self.path@, kind: self.kind@ }
    }
}

/// What is told of a change: every path, or only the file that is watched.
pub open spec fn changes(id: u32, name: Seq<char>, paths: Seq<ChangedPath>, one_file: bool) -> Seq<
    Change,
>
    decreases paths.len(),
{
    if paths.len() == 0 {
        Seq::empty()
    } else {
        let before = changes(id, name, paths.drop_last(), one_file);
        if !one_file || paths.last().is_target {
            before.push(Change { id, path: paths.last().path@, kind: name })
        } else {
            before
        }
    }
}

/// What to tell of a change.
pub fn watch_events(id: u32, kind: ChangeKind, paths: &Vec<ChangedPath>, one_file: bool) -> (r: Vec<
    WatchEvent,
>)
    ensures
        r@.map_values(|event: WatchEvent| event@) =~= match change_name(kind) {
            Some(name) => changes(id, name, paths@, one_file),
            None => Seq::empty(),
        },
{
    let mut events: Vec<WatchEvent> = Vec::new();
    let name = match kind {
        ChangeKind::Create | ChangeKind::Remove | ChangeKind::Rename => "rename",
        ChangeKind::Modify | ChangeKind::Any | ChangeKind::Other => "change",
        ChangeKind::Access => return events,
    };
    let mut i: usize = 0;
    while i < paths.len()
        invariant
            i <= paths@.len(),
            events@.map_values(|event: WatchEvent| event@) =~= changes(
                id,
                name@,
                paths@.take(i as int),
                one_file,
            ),
        decreases paths@.len() - i,
    {
        let ghost before = events@;
        assert(paths@.take(i + 1).drop_last() =~= paths@.take(i as int));
        if !one_file || paths[i].is_target {
            let event = WatchEvent { id, path: paths[i].path.as_str().to_owned(), kind: name };
            let ghost told = event@;
            events.push(event);
            assert(events@.map_values(|event: WatchEvent| event@) =~= before.map_values(
                |event: WatchEvent| event@,
            ).push(told));
        }
        i += 1;
    }
    assert(paths@.take(i as int) =~= paths@);
    events
}

/// The line for the log when watching fails.
pub fn watch_failure(id: u32, message: &str) -> (r: String)
    ensures
        r@ == "File watcher "@ + text::decimal(id as nat) + ": "@ + message@,
{
    let mut line = text::concat3("File watcher ", text::decimal_text(id as u64).as_str(), ": ");
    line.append(message);
    line
}

/// Of a watched file, nothing is told of other files: what is told has its path
/// among the paths that were recognized as the file.
pub proof fn law_only_the_file_is_told(id: u32, name: Seq<char>, paths: Seq<ChangedPath>, i: int)
    requires
        0 <= i < changes(id, name, paths, true).len(),
    ensures
        exists|k: int|
            0 <= k < paths.len() && (#[trigger] paths[k]).is_target && changes(
                id,
                name,
                paths,
                true,
            )[i].path == paths[k].path@,
    decreases paths.len(),
{
    let before = changes(id, name, paths.drop_last(), true);
    if i < before.len() {
        law_only_the_file_is_told(id, name, paths.drop_last(), i);
        let k = choose|k: int|
            0 <= k < paths.drop_last().len() && (#[trigger] paths.drop_last()[k]).is_target
                && before[i].path == paths.drop_last()[k].path@;
        assert(paths[k] == paths.drop_last()[k]);
    } else {
        assert(paths[paths.len() - 1] == paths.last());
    }
}

// ---------------------------------------------------------------------------
// What the operations do
// ---------------------------------------------------------------------------

/// An error is told by its code and by how the system words it.
pub proof fn law_error_codes(kind: IoKind, message: &str, r: String)
    requires
        call_ensures(io_error, (kind, message), r),
    ensures
        message@.is_suffix_of(r@),
        kind is NotFound ==> r@ == "ENOENT"@ + ": "@ + message@,
        kind is PermissionDenied ==> r@ == "EACCES"@ + ": "@ + message@,
        kind is AlreadyExists ==> r@ == "EEXIST"@ + ": "@ + message@,
        kind is NotADirectory ==> r@ == "ENOTDIR"@ + ": "@ + message@,
        kind is IsADirectory ==> r@ == "EISDIR"@ + ": "@ + message@,
        kind is DirectoryNotEmpty ==> r@ == "ENOTEMPTY"@ + ": "@ + message@,
        kind is StorageFull ==> r@ == "ENOSPC"@ + ": "@ + message@,
        kind is ReadOnlyFilesystem ==> r@ == "EROFS"@ + ": "@ + message@,
        kind is InvalidInput ==> r@ == "EINVAL"@ + ": "@ + message@,
        kind is Other ==> r@ == "EIO"@ + ": "@ + message@,
{
}

/// A file is written only if the request names it, and names it as text, and brings raw
/// bytes; the name is the one that the header stands for.
pub proof fn law_what_is_written(header: Header, raw_body: bool, r: Result<String, String>)
    requires
        call_ensures(fs_write, (header, raw_body), r),
    ensures
        r matches Ok(path) ==> raw_body && header is Text && encoding::percent_text(header->Text_0@)
            == Ok::<Seq<char>, Seq<char>>(path@),
        r is Ok <==> raw_body && header is Text && encoding::percent_text(header->Text_0@) is Ok,
        r matches Err(e) ==> "EINVAL: "@.is_prefix_of(e@),
{
    reveal_strlit("EINVAL: ");
    reveal_strlit("EINVAL: Missing path header");
    reveal_strlit("EINVAL: Expected a raw byte body");
    if r is Err {
        assert("EINVAL: "@.is_prefix_of((r->Err_0)@));
    }
}

/// A number keeps its lowest 64 bits: it differs from what is left of it by a multiple of
/// two to the 64, and what is left has a sign and 63 bits.
pub proof fn law_low_bits(n: nat)
    ensures
        i64::MIN <= low_bits(n) <= i64::MAX,
        (n - low_bits(n)) % 0x1_0000_0000_0000_0000 == 0,
{
}

/// What is told of a file is what the system knows of it; a time before 1970 is below zero.
pub proof fn law_stat(
    size: u64,
    before: bool,
    millis: u128,
    is_dir: bool,
    uid: Option<u32>,
    r: FileStat,
)
    requires
        before ==> low_bits(millis as nat) != i64::MIN,
        call_ensures(fs_stat, (size, before, millis, is_dir, uid), r),
    ensures
        r.size == size,
        r.is_dir == is_dir,
        r.uid == uid,
        millis < 0x8000_0000_0000_0000 && before ==> r.mtime == -(millis as int),
        millis < 0x8000_0000_0000_0000 && !before ==> r.mtime == millis,
{
}

/// A directory is watched itself, a file through the directory around it; and only then
/// events are told of the one file alone.
pub proof fn law_watching(
    is_directory: bool,
    has_parent: bool,
    has_name: bool,
    directory: Result<WatchedDirectory, String>,
    one_file: Result<bool, String>,
)
    requires
        call_ensures(watched_directory, (is_directory, has_parent), directory),
        directory is Ok ==> call_ensures(watched_file, (directory->Ok_0, has_name), one_file),
    ensures
        directory is Ok <==> is_directory || has_parent,
        directory matches Ok(d) ==> (d is Itself <==> is_directory),
        directory is Ok ==> (one_file is Ok <==> is_directory || has_name),
        directory is Ok && one_file is Ok ==> one_file->Ok_0 == !is_directory,
{
}

proof fn lemma_all_changes(id: u32, name: Seq<char>, paths: Seq<ChangedPath>)
    ensures
        changes(id, name, paths, false).len() == paths.len(),
        forall|i: int|
            0 <= i < paths.len() ==> #[trigger] changes(id, name, paths, false)[i] == (Change {
                id,
                path: paths[i].path@,
                kind: name,
            }),
    decreases paths.len(),
{
    if paths.len() > 0 {
        lemma_all_changes(id, name, paths.drop_last());
    }
}

/// What is told of paths in two lots is told of each of them in its turn, and of one path
/// exactly if all are told or it is the file that is watched.
pub proof fn law_changes_one_by_one(
    id: u32,
    name: Seq<char>,
    paths: Seq<ChangedPath>,
    more: Seq<ChangedPath>,
    one_file: bool,
)
    ensures
        changes(id, name, paths + more, one_file) == changes(id, name, paths, one_file) + changes(
            id,
            name,
            more,
            one_file,
        ),
        paths.len() == 1 && (!one_file || paths[0].is_target) ==> changes(id, name, paths, one_file)
            == seq![Change { id, path: paths[0].path@, kind: name }],
        paths.len() == 1 && one_file && !paths[0].is_target ==> changes(
            id,
            name,
            paths,
            one_file,
        ).len() == 0,
    decreases more.len(),
{
    if paths.len() == 1 {
        assert(paths.drop_last() =~= Seq::empty());
        assert(changes(id, name, paths.drop_last(), one_file) == Seq::<Change>::empty());
        if !one_file || paths[0].is_target {
            assert(changes(id, name, paths, one_file) =~= seq![
                Change { id, path: paths[0].path@, kind: name },
            ]);
        }
    }
    if more.len() == 0 {
        assert(paths + more =~= paths);
        assert(changes(id, name, more, one_file) =~= Seq::<Change>::empty());
        assert(changes(id, name, paths, one_file) + Seq::<Change>::empty() =~= changes(
            id,
            name,
            paths,
            one_file,
        ));
    } else {
        law_changes_one_by_one(id, name, paths, more.drop_last(), one_file);
        assert((paths + more).drop_last() =~= paths + more.drop_last());
        assert((paths + more).last() == more.last());
        assert(changes(id, name, paths + more, one_file) =~= changes(id, name, paths, one_file)
            + changes(id, name, more, one_file));
    }
}

/// Of a watched directory every path is told, in its place; that a file was read is not
/// told, and what comes, goes or changes its name is told apart from other changes.
pub proof fn law_watch_events(
    id: u32,
    kind: ChangeKind,
    paths: &Vec<ChangedPath>,
    r: Vec<WatchEvent>,
    i: int,
)
    requires
        call_ensures(watch_events, (id, kind, paths, false), r),
    ensures
        kind is Access ==> r@.len() == 0,
        !(kind is Access) ==> r@.len() == paths@.len(),
        !(kind is Access) && 0 <= i < paths@.len() ==> {
            &&& r@[i].id == id
            &&& r@[i].path@ == paths@[i].path@
            &&& kind is Create || kind is Remove || kind is Rename ==> r@[i].kind@ == "rename"@
            &&& kind is Modify || kind is Any || kind is Other ==> r@[i].kind@ == "change"@
        },
{
    lemma_all_changes(id, "rename"@, paths@);
    lemma_all_changes(id, "change"@, paths@);
    let told = r@.map_values(|event: WatchEvent| event@);
    assert(told.len() == r@.len());
    if !(kind is Access) && 0 <= i < paths@.len() {
        assert(told[i] == r@[i]@);
    }
}

/// Of a watched file, every path that is the file is told, under the number of the watcher.
pub proof fn law_the_file_is_told(
    id: u32,
    kind: ChangeKind,
    paths: &Vec<ChangedPath>,
    r: Vec<WatchEvent>,
    i: int,
)
    requires
        call_ensures(watch_events, (id, kind, paths, true), r),
        !(kind is Access),
        0 <= i < paths@.len(),
        paths@[i].is_target,
    ensures
        exists|k: int|
            0 <= k < r@.len() && (#[trigger] r@[k]).path@ == paths@[i].path@ && r@[k].id == id,
{
    let name = change_name(kind)->Some_0;
    let told = r@.map_values(|event: WatchEvent| event@);
    let first = paths@.take(i);
    let rest = paths@.skip(i + 1);
    let here = seq![paths@[i]];
    assert(paths@ =~= first + here + rest);
    law_changes_one_by_one(id, name, first + here, rest, true);
    law_changes_one_by_one(id, name, first, here, true);
    law_changes_one_by_one(id, name, here, Seq::empty(), true);
    let k = changes(id, name, first, true).len() as int;
    assert(told == changes(id, name, paths@, true));
    assert(told[k] == (Change { id, path: paths@[i].path@, kind: name }));
    assert(told[k] == r@[k]@);
}

/// Each watcher gets a number that none before it has, until the numbers are used up; then
/// nothing changes any more.
pub proof fn law_watcher_numbers_are_new(ids: &mut WatcherIds, r: Result<u32, String>, earlier: u32)
    requires
        call_ensures(WatcherIds::take, (ids,), r),
        earlier < old(ids).next,
    ensures
        r matches Ok(id) ==> id > earlier && final(ids).next > id,
        r is Err <==> old(ids).next == u32::MAX,
        r is Err ==> final(ids).next == old(ids).next,
{
}

} // verus!
