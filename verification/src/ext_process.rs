//! Which program a browser extension speaks for: what the system tells about a process.

use vstd::prelude::*;

use crate::encoding;
use crate::platform::Platform;
use crate::text;

verus! {

/// What is known of a process.
pub struct ProcessInfo {
    pub app_name: String,
    /// The process that started it, where that is told.
    pub ppid: u32,
}

/// The arguments of the program that tells about a process.
pub fn process_query(platform: Platform, pid: u32) -> (r: Option<Vec<String>>)
    ensures
        match platform {
            Platform::MacOs | Platform::Linux | Platform::Unix => r matches Some(args) && text::texts(args@) == seq![
                "-opid=,ppid=,comm="@,
                "-p"@,
                text::decimal(pid as nat),
            ],
            Platform::Windows => r matches Some(args) && text::texts(args@) == seq![
                "process"@,
                "where"@,
                "ProcessId="@ + text::decimal(pid as nat),
                "get"@,
                "ProcessId,ParentProcessId,ExecutablePath"@,
                "/format:value"@,
            ],
            Platform::Other => r is None,
        },
{
    let mut args: Vec<String> = Vec::new();
    match platform {
        Platform::MacOs | Platform::Linux | Platform::Unix => {
            args.push("-opid=,ppid=,comm=".to_owned());
            args.push("-p".to_owned());
            args.push(text::decimal_text(pid as u64));
            assert(text::texts(args@) =~= seq![
                "-opid=,ppid=,comm="@,
                "-p"@,
                text::decimal(pid as nat),
            ]);
            Some(args)
        },
        Platform::Windows => {
            args.push("process".to_owned());
            args.push("where".to_owned());
            args.push(text::concat("ProcessId=", text::decimal_text(pid as u64).as_str()));
            args.push("get".to_owned());
            args.push("ProcessId,ParentProcessId,ExecutablePath".to_owned());
            args.push("/format:value".to_owned());
            assert(text::texts(args@) =~= seq![
                "process"@,
                "where"@,
                "ProcessId="@ + text::decimal(pid as nat),
                "get"@,
                "ProcessId,ParentProcessId,ExecutablePath"@,
                "/format:value"@,
            ]);
            Some(args)
        },
        Platform::Other => None,
    }
}

/// What stands behind the last separator.
pub open spec fn last_piece(s: Seq<char>, c: char) -> Seq<char> {
    text::pieces(s, c).last()
}

fn take_last_piece(s: &str, c: char) -> (r: String)
    ensures
        r@ == last_piece(s@, c),
{
    let parts = text::split(s, c);
    let last = parts[parts.len() - 1].as_str().to_owned();
    assert(last@ == text::texts(parts@).last());
    last
}

// ---------------------------------------------------------------------------
// Unix
// ---------------------------------------------------------------------------

/// The name of the program in a line of `ps` about a process: its number, that of its
/// parent, and the path of the program, which may hold white space.
pub open spec fn ps_name(output: Seq<char>, pid: u32) -> Result<Seq<char>, Seq<char>> {
    match text::white_halves(text::trimmed(output)) {
        None => Err("Bad PS output"@),
        Some(first) => match text::white_halves(text::trimmed_start(first.1)) {
            None => Err("Bad PS output"@),
            Some(second) => if text::unsigned_number(first.0, u32::MAX as nat) != Some(pid as nat) {
                Err("PID mismatch in PS output"@)
            } else {
                let name = last_piece(text::trimmed(second.1), '/');
                if name.len() == 0 {
                    Err("Missing process name"@)
                } else {
                    Ok(name)
                }
            },
        },
    }
}

/// The name of the program in a line of `ps`.
pub fn parse_ps(output: &str, pid: u32) -> (r: Result<String, String>)
    ensures
        text::text_outcome(r) == ps_name(output@, pid),
{
    let line = text::trim(output);
    let first = match text::split_white_once(line.as_str()) {
        Some(halves) => halves,
        None => return Err("Bad PS output".to_owned()),
    };
    let rest = text::trim_start(first.1.as_str());
    let second = match text::split_white_once(rest.as_str()) {
        Some(halves) => halves,
        None => return Err("Bad PS output".to_owned()),
    };
    let found = match text::parse_unsigned(first.0.as_str(), u32::MAX as u64) {
        Some(number) => number == pid as u64,
        None => false,
    };
    if !found {
        return Err("PID mismatch in PS output".to_owned());
    }
    let name = take_last_piece(text::trim(second.1.as_str()).as_str(), '/');
    if name.as_str().is_empty() {
        return Err("Missing process name".to_owned());
    }
    Ok(name)
}

// ---------------------------------------------------------------------------
// Windows
// ---------------------------------------------------------------------------

/// A text without the quotation marks at its beginning.
pub open spec fn unquoted_start(s: Seq<char>) -> Seq<char>
    decreases s.len(),
{
    if s.len() > 0 && s[0] == '"' {
        unquoted_start(s.drop_first())
    } else {
        s
    }
}

/// A text without the quotation marks at its end.
pub open spec fn unquoted_end(s: Seq<char>) -> Seq<char>
    decreases s.len(),
{
    if s.len() > 0 && s.last() == '"' {
        unquoted_end(s.drop_last())
    } else {
        s
    }
}

/// A text without the quotation marks around it.
pub open spec fn unquoted(s: Seq<char>) -> Seq<char> {
    unquoted_end(unquoted_start(s))
}

fn unquote(s: &str) -> (r: String)
    ensures
        r@ == unquoted(s@),
{
    let chars = text::chars_of(s);
    let mut from: usize = 0;
    assert(chars@.skip(0) =~= chars@);
    while from < chars.len() && chars[from] == '"'
        invariant
            from <= chars@.len(),
            unquoted_start(chars@) == unquoted_start(chars@.skip(from as int)),
        decreases chars@.len() - from,
    {
        assert(chars@.skip(from as int).drop_first() =~= chars@.skip(from + 1));
        from += 1;
    }
    let ghost rest = chars@.skip(from as int);
    let mut to: usize = chars.len();
    assert(chars@.subrange(from as int, to as int) =~= rest);
    while to > from && chars[to - 1] == '"'
        invariant
            from <= to <= chars@.len(),
            unquoted_end(rest) == unquoted_end(chars@.subrange(from as int, to as int)),
        decreases to - from,
    {
        assert(chars@.subrange(from as int, to as int).drop_last() =~= chars@.subrange(
            from as int,
            to - 1,
        ));
        to -= 1;
    }
    text::string_between(&chars, from, to)
}

/// The name of the program at a path.
pub open spec fn program_name(path: Seq<char>) -> Seq<char> {
    let name = last_piece(unquoted(path), '\\');
    if text::ends(text::lowered(name), ".exe"@) {
        name.take(name.len() - 4)
    } else {
        name
    }
}

fn take_program_name(path: &str) -> (r: String)
    ensures
        r@ == program_name(path@),
{
    let name = take_last_piece(unquote(path).as_str(), '\\');
    if text::ends_with(text::lower(name.as_str()).as_str(), ".exe") {
        let chars = text::chars_of(name.as_str());
        proof {
            reveal_strlit(".exe");
        }
        assert(text::lowered(name@).len() == name@.len());
        assert(chars@.subrange(0, chars@.len() - 4) =~= chars@.take(chars@.len() - 4));
        text::string_between(&chars, 0, chars.len() - 4)
    } else {
        name
    }
}

/// What the lines of `wmic` say so far.
pub struct WmicReport {
    pub pid: Option<nat>,
    pub ppid: nat,
    pub name: Seq<char>,
}

/// What is known after another line.
pub open spec fn wmic_line(report: WmicReport, line: Seq<char>) -> WmicReport {
    match text::halves(text::trimmed(line), '=') {
        None => report,
        Some(entry) => if entry.0 == "ProcessId"@ {
            WmicReport { pid: text::unsigned_number(entry.1, u32::MAX as nat), ..report }
        } else if entry.0 == "ParentProcessId"@ {
            WmicReport {
                ppid: match text::unsigned_number(entry.1, u32::MAX as nat) {
                    Some(number) => number,
                    None => 0,
                },
                ..report
            }
        } else if entry.0 == "ExecutablePath"@ {
            WmicReport { name: program_name(entry.1), ..report }
        } else {
            report
        },
    }
}

/// What some lines say; later lines prevail.
pub open spec fn wmic_report(lines: Seq<Seq<char>>) -> WmicReport
    decreases lines.len(),
{
    if lines.len() == 0 {
        WmicReport { pid: None, ppid: 0, name: Seq::empty() }
    } else {
        wmic_line(wmic_report(lines.drop_last()), lines.last())
    }
}

/// What `wmic` tells about a process.
pub fn parse_wmic(output: &str, pid: u32) -> (r: Result<ProcessInfo, String>)
    ensures
        ({
            let report = wmic_report(text::pieces(output@, '\n'));
            if report.pid == Some(pid as nat) && report.name.len() > 0 {
                r matches Ok(info) && info.app_name@ == report.name && info.ppid == report.ppid
            } else {
                r matches Err(e) && e@ == "Cannot identify browser process"@
            }
        }),
{
    let lines = text::split(output, '\n');
    let ghost all = text::texts(lines@);
    let mut found: Option<u64> = None;
    let mut ppid: u64 = 0;
    let mut name = String::new();
    let mut i: usize = 0;
    while i < lines.len()
        invariant
            i <= lines@.len(),
            all == text::texts(lines@),
            ppid <= u32::MAX,
            ({
                let report = wmic_report(all.take(i as int));
                &&& match (found, report.pid) {
                    (Some(number), Some(told)) => number == told,
                    (None, None) => true,
                    _ => false,
                }
                &&& ppid == report.ppid
                &&& name@ == report.name
            }),
        decreases lines@.len() - i,
    {
        assert(all.take(i + 1).drop_last() =~= all.take(i as int));
        assert(all.take(i + 1).last() == lines@[i as int]@);
        if let Some(entry) = text::split_once(text::trim(lines[i].as_str()).as_str(), '=') {
            if text::same_text(entry.0.as_str(), "ProcessId") {
                found = text::parse_unsigned(entry.1.as_str(), u32::MAX as u64);
            } else if text::same_text(entry.0.as_str(), "ParentProcessId") {
                ppid =
                match text::parse_unsigned(entry.1.as_str(), u32::MAX as u64) {
                    Some(number) => number,
                    None => 0,
                };
            } else if text::same_text(entry.0.as_str(), "ExecutablePath") {
                name = take_program_name(entry.1.as_str());
            }
        }
        i += 1;
    }
    assert(all.take(i as int) =~= all);
    let same = match found {
        Some(number) => number == pid as u64,
        None => false,
    };
    if !same || name.as_str().is_empty() {
        return Err("Cannot identify browser process".to_owned());
    }
    Ok(ProcessInfo { app_name: name, ppid: ppid as u32 })
}

// ---------------------------------------------------------------------------
// Both
// ---------------------------------------------------------------------------

/// What is known of a process, from what the program of the system has written about it.
pub fn process_info(platform: Platform, output: &Vec<u8>, pid: u32) -> (r: Result<
    ProcessInfo,
    String,
>)
    ensures
        match platform {
            Platform::MacOs | Platform::Linux | Platform::Unix => match (r, ps_name(encoding::lossy(output@), pid)) {
                (Ok(info), Ok(name)) => info.app_name@ == name && info.ppid == 0,
                (Err(e), Err(message)) => e@ == message,
                _ => false,
            },
            Platform::Windows => {
                let report = wmic_report(text::pieces(encoding::lossy(output@), '\n'));
                if report.pid == Some(pid as nat) && report.name.len() > 0 {
                    r matches Ok(info) && info.app_name@ == report.name && info.ppid == report.ppid
                } else {
                    r matches Err(e) && e@ == "Cannot identify browser process"@
                }
            },
            Platform::Other => r matches Err(e) && e@ == "Not supported on this platform"@,
        },
{
    let written = encoding::lossy_text(output.as_slice());
    match platform {
        Platform::MacOs | Platform::Linux | Platform::Unix => match parse_ps(written.as_str(), pid) {
            Ok(app_name) => Ok(ProcessInfo { app_name, ppid: 0 }),
            Err(message) => Err(message),
        },
        Platform::Windows => parse_wmic(written.as_str(), pid),
        Platform::Other => Err("Not supported on this platform".to_owned()),
    }
}

/// The process to look at instead: on Windows a browser starts the extension through a
/// command line.
pub fn behind_shell(platform: Platform, info: &ProcessInfo) -> (r: Option<u32>)
    ensures
        r == if platform is Windows && info.app_name@ == "cmd"@ {
            Some(info.ppid)
        } else {
            None
        },
{
    if platform == Platform::Windows && text::same_text(info.app_name.as_str(), "cmd") {
        Some(info.ppid)
    } else {
        None
    }
}

/// How a browser is called whose process has a name.
pub open spec fn browser_title(name: Seq<char>) -> Seq<char> {
    if name == "msedge"@ {
        "Microsoft Edge"@
    } else if name == "chrome"@ {
        "Google Chrome"@
    } else if name.len() == 0 {
        name
    } else {
        encoding::uppercase(name[0]) + name.drop_first()
    }
}

/// A name that begins with another character.
pub fn with_initial(initial: &str, name: &str) -> (r: String)
    requires
        name@.len() > 0,
    ensures
        r@ == initial@ + name@.drop_first(),
{
    let chars = text::chars_of(name);
    let rest = text::string_between(&chars, 1, chars.len());
    assert(rest@ =~= name@.drop_first());
    text::concat(initial, rest.as_str())
}

/// How the browser is called that an extension speaks for.
pub fn browser_name(process: Option<String>) -> (r: String)
    ensures
        r@ == match process {
            Some(name) => browser_title(name@),
            None => browser_title("Unidentified browser"@),
        },
{
    let name = match process {
        Some(name) => name,
        None => "Unidentified browser".to_owned(),
    };
    if text::same_text(name.as_str(), "msedge") {
        return "Microsoft Edge".to_owned();
    }
    if text::same_text(name.as_str(), "chrome") {
        return "Google Chrome".to_owned();
    }
    if name.as_str().is_empty() {
        return name;
    }
    let chars = text::chars_of(name.as_str());
    let initial = encoding::upper_text(chars[0]);
    with_initial(initial.as_str(), name.as_str())
}

// ---------------------------------------------------------------------------
// Laws
// ---------------------------------------------------------------------------

/// What stands behind the last separator holds none, and is all of a text without one.
pub proof fn law_last_piece(s: Seq<char>, before: Seq<char>, c: char)
    requires
        !s.contains(c),
    ensures
        last_piece(s, c) == s,
        last_piece(before + seq![c] + s, c) == s,
{
    text::law_one_piece(s, c);
    text::law_pieces_around(before, c, s);
}

/// A line of `ps`: white space at its ends and between its parts does not matter, and the
/// name is what stands behind the last slash of the path, with the white space in it.
pub proof fn law_ps_line(
    output: &str,
    pid: u32,
    number: Seq<char>,
    parent: Seq<char>,
    path: Seq<char>,
    r: Result<String, String>,
)
    requires
        call_ensures(parse_ps, (output, pid), r),
        number.len() > 0,
        parent.len() > 0,
        path.len() > 0,
        forall|i: int| 0 <= i < number.len() ==> !text::is_white(#[trigger] number[i]),
        forall|i: int| 0 <= i < parent.len() ==> !text::is_white(#[trigger] parent[i]),
        !text::is_white(path[0]),
        !text::is_white(path.last()),
        text::is_core(output@, number + seq![' '] + parent + seq![' '] + path),
    ensures
        text::unsigned_number(number, u32::MAX as nat) == Some(pid as nat) ==> {
            &&& r is Ok ==> (r->Ok_0)@ == last_piece(path, '/')
            &&& r is Ok <==> path.last() != '/'
            &&& r is Err ==> (r->Err_0)@ == "Missing process name"@
        },
        text::unsigned_number(number, u32::MAX as nat) != Some(pid as nat) ==> r is Err && (
        r->Err_0)@ == "PID mismatch in PS output"@,
{
    let line = number + seq![' '] + parent + seq![' '] + path;
    text::law_trimming_drops_only_white_ends(output@);
    let rest = parent + seq![' '] + path;
    assert(line =~= number + seq![' '] + rest);
    lemma_white_halves(number, ' ', rest);
    assert(rest[0] == parent[0]);
    assert(text::trimmed_start(rest) == rest);
    lemma_white_halves(parent, ' ', path);
    assert(text::is_core(path, path)) by {
        assert(path.subrange(0, path.len() as int) =~= path);
    }
    text::law_trimming_drops_only_white_ends(path);
    assert(text::trimmed(path) == path);
    lemma_last_piece_empty(path);
}

/// A path has an empty last piece exactly if it ends with the separator.
proof fn lemma_last_piece_empty(path: Seq<char>)
    requires
        path.len() > 0,
    ensures
        last_piece(path, '/').len() == 0 <==> path.last() == '/',
{
    text::lemma_pieces(path.drop_last(), '/');
}

proof fn lemma_white_halves(first: Seq<char>, c: char, rest: Seq<char>)
    requires
        text::is_white(c),
        forall|i: int| 0 <= i < first.len() ==> !text::is_white(#[trigger] first[i]),
    ensures
        text::white_halves(first + seq![c] + rest) == Some((first, rest)),
{
    let all = first + seq![c] + rest;
    text::law_white_halves(all);
    assert(text::is_white(all[first.len() as int]));
    let h = text::white_halves(all)->Some_0;
    assert(h.0.len() == first.len()) by {
        if h.0.len() < first.len() {
            assert(all[h.0.len() as int] == first[h.0.len() as int]);
        }
        if first.len() < h.0.len() {
            assert(h.0[first.len() as int] == all[first.len() as int]) by {
                let whole = h.0 + seq![all[h.0.len() as int]] + h.1;
                assert(whole[first.len() as int] == h.0[first.len() as int]);
            }
        }
    }
    let whole = h.0 + seq![all[h.0.len() as int]] + h.1;
    assert(h.0 =~= first) by {
        assert forall|i: int| 0 <= i < first.len() implies h.0[i] == first[i] by {
            assert(whole[i] == all[i]);
        }
    }
    assert(h.1 =~= rest) by {
        assert forall|i: int| 0 <= i < rest.len() implies h.1[i] == rest[i] by {
            assert(whole[first.len() + 1 + i] == all[first.len() + 1 + i]);
        }
    }
}

/// The quotation marks around a text: what is left neither begins nor ends with one, and
/// all that is left out are quotation marks.
pub proof fn law_unquoted(s: Seq<char>)
    ensures
        ({
            let t = unquoted(s);
            &&& t.len() > 0 ==> t[0] != '"' && t.last() != '"'
            &&& exists|from: int, to: int|
                #![trigger s.subrange(from, to)]
                {
                    &&& 0 <= from <= to <= s.len()
                    &&& t == s.subrange(from, to)
                    &&& forall|k: int| 0 <= k < from || to <= k < s.len() ==> #[trigger] s[k] == '"'
                }
        }),
{
    let start = unquoted_start(s);
    lemma_unquoted_start(s);
    lemma_unquoted_end(start);
    let t = unquoted_end(start);
    let from = s.len() - start.len();
    let to = from + t.len();
    assert(t =~= s.subrange(from, to));
    assert forall|k: int| 0 <= k < from || to <= k < s.len() implies #[trigger] s[k] == '"' by {
        if k >= to {
            assert(start[k - from] == s[k]);
        }
    }
    if t.len() > 0 {
        assert(t[0] == start[0]);
    }
}

proof fn lemma_unquoted_start(s: Seq<char>)
    ensures
        unquoted_start(s).len() <= s.len(),
        unquoted_start(s) == s.skip(s.len() - unquoted_start(s).len()),
        unquoted_start(s).len() > 0 ==> unquoted_start(s)[0] != '"',
        forall|k: int| 0 <= k < s.len() - unquoted_start(s).len() ==> #[trigger] s[k] == '"',
    decreases s.len(),
{
    if s.len() > 0 && s[0] == '"' {
        let rest = s.drop_first();
        lemma_unquoted_start(rest);
        let t = unquoted_start(rest);
        assert(rest.skip(rest.len() - t.len()) =~= s.skip(s.len() - t.len()));
        assert forall|k: int| 0 <= k < s.len() - t.len() implies #[trigger] s[k] == '"' by {
            if k > 0 {
                assert(rest[k - 1] == s[k]);
            }
        }
    } else {
        assert(s.skip(0) =~= s);
    }
}

proof fn lemma_unquoted_end(s: Seq<char>)
    ensures
        unquoted_end(s).len() <= s.len(),
        unquoted_end(s) == s.take(unquoted_end(s).len() as int),
        unquoted_end(s).len() > 0 ==> unquoted_end(s).last() != '"',
        forall|k: int| unquoted_end(s).len() <= k < s.len() ==> #[trigger] s[k] == '"',
    decreases s.len(),
{
    if s.len() > 0 && s.last() == '"' {
        let rest = s.drop_last();
        lemma_unquoted_end(rest);
        let t = unquoted_end(rest);
        assert(rest.take(t.len() as int) =~= s.take(t.len() as int));
        assert forall|k: int| t.len() <= k < s.len() implies #[trigger] s[k] == '"' by {
            if k < rest.len() {
                assert(rest[k] == s[k]);
            }
        }
    } else {
        assert(s.take(s.len() as int) =~= s);
    }
}

/// A program is named by what stands behind the last backslash of its path, without the
/// extension of programs, in whatever case that is written.
pub proof fn law_program_name(path: Seq<char>)
    ensures
        ({
            let file = last_piece(unquoted(path), '\\');
            let n = file.len();
            let has_extension = n >= 4 && file[n - 4] == '.' && (file[n - 3] == 'e' || file[n - 3]
                == 'E') && (file[n - 2] == 'x' || file[n - 2] == 'X') && (file[n - 1] == 'e' || file[n
                - 1] == 'E');
            &&& has_extension ==> program_name(path) == file.take(n - 4)
            &&& !has_extension ==> program_name(path) == file
        }),
{
    reveal_strlit(".exe");
    assert(".exe"@ =~= seq!['.', 'e', 'x', 'e']);
    let file = last_piece(unquoted(path), '\\');
    let n = file.len();
    let low = text::lowered(file);
    if n >= 4 {
        let tail = low.subrange(n - 4, n as int);
        assert(tail[0] == text::ascii_lower(file[n - 4]));
        assert(tail[1] == text::ascii_lower(file[n - 3]));
        assert(tail[2] == text::ascii_lower(file[n - 2]));
        assert(tail[3] == text::ascii_lower(file[n - 1]));
        if file[n - 4] == '.' && (file[n - 3] == 'e' || file[n - 3] == 'E') && (file[n - 2] == 'x'
            || file[n - 2] == 'X') && (file[n - 1] == 'e' || file[n - 1] == 'E') {
            assert(tail =~= ".exe"@);
        }
    }
}

/// A line of `wmic` with a name, an equals sign and a value, whatever white space stands
/// around it.
pub open spec fn wmic_entry(line: Seq<char>, name: Seq<char>, value: Seq<char>) -> bool {
    text::is_core(line, name + seq!['='] + value) && !name.contains('=')
}

/// Each of the three names of a line sets what it stands for and nothing else; a line with
/// another name, or without an equals sign, sets nothing.
pub proof fn law_wmic_line(report: WmicReport, line: Seq<char>, name: Seq<char>, value: Seq<char>)
    ensures
        ({
            let after = wmic_line(report, line);
            &&& wmic_entry(line, name, value) && name == "ProcessId"@ ==> after.pid
                == text::unsigned_number(value, u32::MAX as nat) && after.ppid == report.ppid
                && after.name == report.name
            &&& wmic_entry(line, name, value) && name == "ParentProcessId"@ ==> {
                &&& after.pid == report.pid && after.name == report.name
                &&& text::unsigned_number(value, u32::MAX as nat) matches Some(n) ==> after.ppid == n
                &&& text::unsigned_number(value, u32::MAX as nat) is None ==> after.ppid == 0
            }
            &&& wmic_entry(line, name, value) && name == "ExecutablePath"@ ==> after.name
                == program_name(value) && after.pid == report.pid && after.ppid == report.ppid
            &&& wmic_entry(line, name, value) && name != "ProcessId"@ && name != "ParentProcessId"@
                && name != "ExecutablePath"@ ==> after == report
            &&& !line.contains('=') ==> after == report
        }),
{
    text::law_trimming_drops_only_white_ends(line);
    text::lemma_trimmed(line);
    let core = text::trimmed(line);
    text::law_halves(core, '=');
    reveal_strlit("ProcessId");
    reveal_strlit("ParentProcessId");
    reveal_strlit("ExecutablePath");
    assert("ProcessId"@.len() == 9 && "ParentProcessId"@.len() == 15 && "ExecutablePath"@.len()
        == 14);
    if wmic_entry(line, name, value) {
        let whole = name + seq!['='] + value;
        assert(core == whole);
        assert(whole[name.len() as int] == '=');
        assert(core.contains('='));
        let h = text::halves(core, '=')->Some_0;
        let again = h.0 + seq!['='] + h.1;
        assert(h.0.len() == name.len()) by {
            if h.0.len() < name.len() {
                assert(again[h.0.len() as int] == '=');
                assert(name[h.0.len() as int] == '=');
            }
            if name.len() < h.0.len() {
                assert(again[name.len() as int] == h.0[name.len() as int]);
            }
        }
        assert(h.0 =~= name) by {
            assert forall|i: int| 0 <= i < name.len() implies h.0[i] == name[i] by {
                assert(again[i] == whole[i]);
            }
        }
        assert(h.1 =~= value) by {
            assert forall|i: int| 0 <= i < value.len() implies h.1[i] == value[i] by {
                assert(again[name.len() + 1 + i] == whole[name.len() + 1 + i]);
            }
        }
    }
}

/// What `wmic` tells is believed only of the process that was asked for, and only if it
/// names its program.
pub proof fn law_wmic_is_about_the_process(output: &str, pid: u32, r: Result<ProcessInfo, String>)
    requires
        call_ensures(parse_wmic, (output, pid), r),
    ensures
        ({
            let told = wmic_report(text::pieces(output@, '\n'));
            &&& r is Ok <==> told.pid == Some(pid as nat) && told.name.len() > 0
            &&& r is Ok ==> (r->Ok_0).app_name@ == told.name && (r->Ok_0).ppid == told.ppid
            &&& r is Err ==> (r->Err_0)@ == "Cannot identify browser process"@
        }),
{
}

/// The system is asked about the very process, by `ps` where there is one and by `wmic` on
/// Windows; elsewhere not at all.
pub proof fn law_process_query(platform: Platform, pid: u32, r: Option<Vec<String>>)
    requires
        call_ensures(process_query, (platform, pid), r),
    ensures
        platform is Other <==> r is None,
        r matches Some(args) ==> {
            &&& platform is Windows ==> args@.len() == 6 && args@[2]@ == "ProcessId="@
                + text::decimal(pid as nat) && args@[4]@
                == "ProcessId,ParentProcessId,ExecutablePath"@
            &&& !(platform is Windows) ==> args@.len() == 3 && args@[0]@ == "-opid=,ppid=,comm="@
                && args@[1]@ == "-p"@ && args@[2]@ == text::decimal(pid as nat)
        },
{
    if let Some(args) = r {
        let all = text::texts(args@);
        assert(all.len() == args@.len());
        assert(all[0] == args@[0]@ && all[1] == args@[1]@ && all[2] == args@[2]@);
        if platform is Windows {
            assert(all[4] == args@[4]@);
        }
    }
}

/// What was written about a process is read as the program of the platform writes it.
pub proof fn law_process_info(
    platform: Platform,
    output: &Vec<u8>,
    pid: u32,
    text: &str,
    name: Result<String, String>,
    info: Result<ProcessInfo, String>,
    r: Result<ProcessInfo, String>,
)
    requires
        call_ensures(process_info, (platform, output, pid), r),
        text@ == encoding::lossy(output@),
        call_ensures(parse_ps, (text, pid), name),
        call_ensures(parse_wmic, (text, pid), info),
    ensures
        platform is MacOs || platform is Linux || platform is Unix ==> {
            &&& r is Ok <==> name is Ok
            &&& r is Ok ==> (r->Ok_0).app_name@ == (name->Ok_0)@
            &&& r is Err ==> (r->Err_0)@ == (name->Err_0)@
        },
        platform is Windows ==> {
            &&& r is Ok <==> info is Ok
            &&& r is Ok ==> (r->Ok_0).app_name@ == (info->Ok_0).app_name@ && (r->Ok_0).ppid == (
            info->Ok_0).ppid
            &&& r is Err ==> (r->Err_0)@ == (info->Err_0)@
        },
        platform is Other ==> r is Err,
{
}

/// Only on Windows, and only behind a command line, another process is looked at: the one
/// that started it.
pub proof fn law_behind_a_command_line(platform: Platform, info: &ProcessInfo, r: Option<u32>)
    requires
        call_ensures(behind_shell, (platform, info), r),
    ensures
        r is Some <==> platform is Windows && info.app_name@ == "cmd"@,
        r matches Some(pid) ==> pid == info.ppid,
{
}

/// A browser is called by its process, with a capital in front; two have names of their
/// own, and one without a process is called unidentified.
pub proof fn law_browser_name(process: Option<String>, r: String)
    requires
        call_ensures(browser_name, (process,), r),
    ensures
        process matches Some(name) ==> {
            &&& name@ == "msedge"@ ==> r@ == "Microsoft Edge"@
            &&& name@ == "chrome"@ ==> r@ == "Google Chrome"@
            &&& name@ != "msedge"@ && name@ != "chrome"@ && name@.len() > 0 ==> {
                let capital = encoding::uppercase(name@[0]);
                capital.is_prefix_of(r@) && r@.skip(capital.len() as int) == name@.skip(1)
            }
            &&& name@.len() == 0 ==> r@.len() == 0
        },
        process is None ==> r@.skip(encoding::uppercase('U').len() as int)
            == "nidentified browser"@,
{
    reveal_strlit("msedge");
    reveal_strlit("chrome");
    reveal_strlit("Unidentified browser");
    reveal_strlit("nidentified browser");
    assert("msedge"@.len() == 6 && "msedge"@[0] == 'm');
    assert("chrome"@.len() == 6 && "chrome"@[0] == 'c');
    assert("Unidentified browser"@.len() == 20 && "Unidentified browser"@[0] == 'U');
    assert("Unidentified browser"@.drop_first() =~= "nidentified browser"@);
    match process {
        Some(name) => {
            if name@ != "msedge"@ && name@ != "chrome"@ && name@.len() > 0 {
                let capital = encoding::uppercase(name@[0]);
                assert(r@.skip(capital.len() as int) =~= name@.skip(1));
            }
        },
        None => {
            let capital = encoding::uppercase('U');
            assert(r@.skip(capital.len() as int) =~= "nidentified browser"@);
        },
    }
}

/// Lines are taken one after another, beginning with nothing known; a later line prevails.
pub proof fn law_wmic_report(lines: Seq<Seq<char>>, line: Seq<char>)
    ensures
        wmic_report(Seq::empty()) == (WmicReport { pid: None, ppid: 0, name: Seq::empty() }),
        wmic_report(lines.push(line)) == wmic_line(wmic_report(lines), line),
{
    assert(lines.push(line).drop_last() =~= lines);
}

} // verus!
