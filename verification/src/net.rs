//! Requests over the network, downloads, and the listener that receives the answer
//! of an authorization server.

use vstd::arithmetic::power::pow;
use vstd::prelude::*;
use vstd::utf8::{decode_utf8, encode_utf8, valid_utf8};

use crate::encoding;
use crate::text;

verus! {

/// How long a request may take unless it says so itself, in milliseconds.
pub const REQUEST_TIMEOUT_MILLIS: u64 = 60000;

/// How long a client may take to send its request, in milliseconds.
pub const OAUTH_DEADLINE_MILLIS: u64 = 5000;

/// From how many bytes on a request is given up.
pub const OAUTH_REQUEST_LIMIT: usize = 16384;

/// The page that a browser shows when all is done.
pub const OAUTH_HTML: &'static str =
    "<!DOCTYPE html><html lang=\"en\"><head><meta charset=\"UTF-8\"><title>KeeWeb</title></head><body><h1>Authentication is complete, you may close this tab now.</h1></body></html>";

// ---------------------------------------------------------------------------
// Requests
// ---------------------------------------------------------------------------

/// A request to send.
pub struct HttpRequestConfig {
    pub url: String,
    pub method: String,
    pub headers: Vec<(String, String)>,
    pub data: Option<Vec<u8>>,
    pub timeout_ms: Option<u64>,
}

impl HttpRequestConfig {
    /// How long the request may take, in milliseconds.
    pub fn timeout(&self) -> (r: u64)
        ensures
            r == match self.timeout_ms {
                Some(millis) => millis,
                None => REQUEST_TIMEOUT_MILLIS,
            },
    {
        match self.timeout_ms {
            Some(millis) => millis,
            None => REQUEST_TIMEOUT_MILLIS,
        }
    }

    /// The body of the request.
    pub fn body(self) -> (r: Vec<u8>)
        ensures
            r@ == match self.data {
                Some(data) => data@,
                None => Seq::empty(),
            },
    {
        match self.data {
            Some(data) => data,
            None => Vec::new(),
        }
    }
}

/// The response to a request. No header occurs twice.
pub struct HttpResponse {
    pub status: u16,
    pub headers: Vec<(String, String)>,
    pub data: Vec<u8>,
}

/// Headers by name and value.
pub open spec fn header_texts(headers: Seq<(String, String)>) -> Seq<(Seq<char>, Seq<char>)> {
    headers.map_values(|header: (String, String)| (header.0@, header.1@))
}

/// Where a header stands: the number of headers if it does not.
pub open spec fn header_position(headers: Seq<(Seq<char>, Seq<char>)>, name: Seq<char>) -> int
    decreases headers.len(),
{
    if headers.len() == 0 || headers[0].0 == name {
        0
    } else {
        1 + header_position(headers.drop_first(), name)
    }
}

/// Headers with one more: a value joins those of its name, after a comma.
pub open spec fn header_added(
    headers: Seq<(Seq<char>, Seq<char>)>,
    name: Seq<char>,
    value: Seq<char>,
) -> Seq<(Seq<char>, Seq<char>)> {
    let i = header_position(headers, name);
    if i < headers.len() {
        headers.update(i, (name, headers[i].1 + ", "@ + value))
    } else {
        headers.push((name, value))
    }
}

/// Headers as they come over the network, merged by their names.
pub open spec fn merged_headers(raw: Seq<(String, Vec<u8>)>) -> Seq<(Seq<char>, Seq<char>)>
    decreases raw.len(),
{
    if raw.len() == 0 {
        Seq::empty()
    } else {
        header_added(
            merged_headers(raw.drop_last()),
            raw.last().0@,
            encoding::lossy(raw.last().1@),
        )
    }
}

proof fn lemma_header_position(headers: Seq<(Seq<char>, Seq<char>)>, name: Seq<char>)
    ensures
        0 <= header_position(headers, name) <= headers.len(),
        header_position(headers, name) < headers.len() ==> headers[header_position(
            headers,
            name,
        )].0 == name,
        forall|k: int|
            0 <= k < header_position(headers, name) ==> (#[trigger] headers[k]).0 != name,
    decreases headers.len(),
{
    if headers.len() > 0 && headers[0].0 != name {
        let rest = headers.drop_first();
        lemma_header_position(rest, name);
        assert forall|k: int| 0 <= k < header_position(headers, name) implies (
        #[trigger] headers[k]).0 != name by {
            if k > 0 {
                assert(rest[k - 1] == headers[k]);
            }
        }
    }
}

/// No name occurs twice among merged headers.
pub proof fn law_header_names_are_distinct(raw: Seq<(String, Vec<u8>)>, i: int, j: int)
    requires
        0 <= i < j < merged_headers(raw).len(),
    ensures
        merged_headers(raw)[i].0 != merged_headers(raw)[j].0,
    decreases raw.len(),
{
    let before = merged_headers(raw.drop_last());
    let name = raw.last().0@;
    let at = header_position(before, name);
    lemma_header_position(before, name);
    if j < before.len() {
        law_header_names_are_distinct(raw.drop_last(), i, j);
    } else {
        assert(at == before.len());
        assert(before[i].0 != name);
    }
}

proof fn lemma_position_is(headers: Seq<(Seq<char>, Seq<char>)>, name: Seq<char>, at: int)
    requires
        0 <= at <= headers.len(),
        at < headers.len() ==> headers[at].0 == name,
        forall|k: int| 0 <= k < at ==> (#[trigger] headers[k]).0 != name,
    ensures
        header_position(headers, name) == at,
{
    lemma_header_position(headers, name);
    let found = header_position(headers, name);
    if found < at {
        assert(headers[found].0 != name);
    }
}

/// The values of a name, as they come over the network.
pub open spec fn values_of(raw: Seq<(String, Vec<u8>)>, name: Seq<char>) -> Seq<Seq<char>>
    decreases raw.len(),
{
    if raw.len() == 0 {
        Seq::empty()
    } else {
        let before = values_of(raw.drop_last(), name);
        if raw.last().0@ == name {
            before.push(encoding::lossy(raw.last().1@))
        } else {
            before
        }
    }
}

/// No value of a header is lost: a merged header holds all values of its name in their
/// order, and there is one exactly for the names that have values.
pub proof fn law_header_values_are_kept(raw: Seq<(String, Vec<u8>)>, name: Seq<char>)
    ensures
        ({
            let merged = merged_headers(raw);
            let at = header_position(merged, name);
            let values = values_of(raw, name);
            &&& at < merged.len() <==> values.len() > 0
            &&& values.len() > 0 ==> merged[at].1 == text::joined(values, ", "@)
        }),
    decreases raw.len(),
{
    if raw.len() > 0 {
        law_header_values_are_kept(raw.drop_last(), name);
        let before = merged_headers(raw.drop_last());
        let merged = merged_headers(raw);
        let other = raw.last().0@;
        let value = encoding::lossy(raw.last().1@);
        let at = header_position(before, name);
        let changed = header_position(before, other);
        lemma_header_position(before, name);
        lemma_header_position(before, other);
        let values = values_of(raw.drop_last(), name);
        if other == name {
            if at < before.len() {
                assert forall|k: int| 0 <= k < at implies (#[trigger] merged[k]).0 != name by {
                    assert(merged[k] == before[k]);
                }
                lemma_position_is(merged, name, at);
                assert(values.push(value).drop_last() =~= values);
            } else {
                assert forall|k: int| 0 <= k < at implies (#[trigger] merged[k]).0 != name by {
                    assert(merged[k] == before[k]);
                }
                lemma_position_is(merged, name, at);
            }
        } else {
            assert forall|k: int| 0 <= k < at implies (#[trigger] merged[k]).0 != name by {
                assert(before[k].0 != name);
            }
            if at < before.len() {
                assert(merged[at] == before[at]);
                lemma_position_is(merged, name, at);
            } else {
                assert forall|k: int| 0 <= k < merged.len() implies (#[trigger] merged[k]).0
                    != name by {
                    if k < before.len() {
                        assert(before[k].0 != name);
                    }
                }
                lemma_position_is(merged, name, merged.len() as int);
            }
        }
    }
}

fn find_header(headers: &Vec<(String, String)>, name: &str) -> (r: usize)
    ensures
        r == header_position(header_texts(headers@), name@),
        r <= headers@.len(),
{
    let ghost all = header_texts(headers@);
    let mut i: usize = 0;
    assert(all.skip(0) =~= all);
    while i < headers.len()
        invariant
            i <= headers@.len(),
            all == header_texts(headers@),
            header_position(all, name@) == i + header_position(all.skip(i as int), name@),
        decreases headers@.len() - i,
    {
        if text::same_text(headers[i].0.as_str(), name) {
            assert(all.skip(i as int)[0].0 == name@);
            return i;
        }
        assert(all.skip(i as int).drop_first() =~= all.skip(i + 1));
        i += 1;
    }
    i
}

/// Merges headers by their names.
pub fn merge_headers(raw: &Vec<(String, Vec<u8>)>) -> (r: Vec<(String, String)>)
    ensures
        header_texts(r@) == merged_headers(raw@),
{
    let mut headers: Vec<(String, String)> = Vec::new();
    let mut i: usize = 0;
    assert(header_texts(headers@) =~= merged_headers(raw@.take(0)));
    while i < raw.len()
        invariant
            i <= raw@.len(),
            header_texts(headers@) == merged_headers(raw@.take(i as int)),
        decreases raw@.len() - i,
    {
        assert(raw@.take(i + 1).drop_last() =~= raw@.take(i as int));
        let ghost before = header_texts(headers@);
        let name = raw[i].0.as_str();
        let value = encoding::lossy_text(raw[i].1.as_slice());
        let at = find_header(&headers, name);
        if at < headers.len() {
            let mut all = text::concat(headers[at].1.as_str(), ", ");
            all.append(value.as_str());
            proof {
                lemma_header_position(before, name@);
            }
            assert(before[at as int] == (headers@[at as int].0@, headers@[at as int].1@));
            headers.set(at, (name.to_owned(), all));
            assert(header_texts(headers@) =~= header_added(before, name@, value@));
        } else {
            headers.push((name.to_owned(), value));
            assert(header_texts(headers@) =~= header_added(before, name@, value@));
        }
        i += 1;
    }
    assert(raw@.take(i as int) =~= raw@);
    headers
}

/// The response of a server.
pub fn http_response(status: u16, raw: &Vec<(String, Vec<u8>)>, data: Vec<u8>) -> (r: HttpResponse)
    ensures
        r.status == status,
        r.data == data,
        header_texts(r.headers@) == merged_headers(raw@),
{
    HttpResponse { status, headers: merge_headers(raw), data }
}

/// The message for a request that failed. The user interface knows one that took too
/// long by a word of its own.
pub fn http_error(timeout: bool, message: &str) -> (r: String)
    ensures
        r@ == if timeout {
            "timeout"@
        } else {
            message@
        },
{
    if timeout {
        "timeout".to_owned()
    } else {
        message.to_owned()
    }
}

// ---------------------------------------------------------------------------
// Downloads
// ---------------------------------------------------------------------------

/// Whether a response is worth keeping.
pub fn download_status(status: u16) -> (r: Result<(), String>)
    ensures
        text::outcome(r) == if status == 200 {
            Ok(())
        } else {
            Err("HTTP status "@ + text::decimal(status as nat))
        },
{
    if status == 200 {
        Ok(())
    } else {
        Err(text::concat("HTTP status ", text::decimal_text(status as u64).as_str()))
    }
}

/// The file that a download goes to before it is complete.
pub open spec fn partial_name(name: Seq<char>, number: u64) -> Seq<char> {
    "."@ + name + ".download-"@ + text::hexadecimal(number as nat, 16)
}

/// The file that a download goes to before it is complete.
pub fn temporary_name(name: &str, number: u64) -> (r: String)
    ensures
        r@ == partial_name(name@, number),
{
    let mut r = text::concat3(".", name, ".download-");
    r.append(text::hexadecimal_text(number).as_str());
    r
}

/// `rand::random`: a random number.
#[verifier::external_body]
pub(crate) fn random_number() -> (r: u64) {
    rand::random::<u64>()
}

/// A file beside the given one that a download goes to before it is complete.
pub fn download_to_file(name: Option<String>) -> (r: Result<String, String>)
    ensures
        match name {
            Some(name) => r is Ok && exists|number: u64|
                (r->Ok_0)@ == #[trigger] partial_name(name@, number),
            None => text::text_outcome(r) == Err::<Seq<char>, Seq<char>>(
                "Download path has no file name"@,
            ),
        },
{
    match name {
        Some(name) => Ok(temporary_name(name.as_str(), random_number())),
        None => Err("Download path has no file name".to_owned()),
    }
}

/// What is done with a download, one after another.
#[derive(Clone, Copy, Debug, PartialEq, Eq, Structural)]
pub enum DownloadStage {
    /// Copy the response to the temporary file.
    Copy,
    /// Wait until the file is on the disk.
    Sync,
    /// Give the file its name.
    Rename,
}

/// What to do next with a download.
pub enum DownloadStep {
    Go(DownloadStage),
    Done,
    /// Remove the temporary file, and report this.
    Remove(String),
}

/// What to do next with a download, after a stage that may have failed. Only a file
/// that is complete gets its name.
pub fn download_next(stage: DownloadStage, failure: Option<String>) -> (r: DownloadStep)
    ensures
        match failure {
            Some(message) => r == DownloadStep::Remove(message),
            None => match stage {
                DownloadStage::Copy => r == DownloadStep::Go(DownloadStage::Sync),
                DownloadStage::Sync => r == DownloadStep::Go(DownloadStage::Rename),
                DownloadStage::Rename => r is Done,
            },
        },
{
    match failure {
        Some(message) => DownloadStep::Remove(message),
        None => match stage {
            DownloadStage::Copy => DownloadStep::Go(DownloadStage::Sync),
            DownloadStage::Sync => DownloadStep::Go(DownloadStage::Rename),
            DownloadStage::Rename => DownloadStep::Done,
        },
    }
}

/// An incomplete download never has the name of the file that it will be.
pub proof fn law_partial_name_differs(name: Seq<char>, number: u64)
    ensures
        partial_name(name, number) != name,
{
    reveal_strlit(".");
    assert(partial_name(name, number).len() > name.len());
}

// ---------------------------------------------------------------------------
// The request of a browser
// ---------------------------------------------------------------------------

/// Whether a listener may be started on a port, for addresses that begin with a path.
pub fn oauth_listener_start(port: u16, path: &str) -> (r: Result<(), String>)
    ensures
        text::outcome(r) == if port != 0 && text::begins(path@, "/"@) && !text::begins(
            path@,
            "//"@,
        ) && !path@.contains('?') && !path@.contains('#') && !path@.contains('\r')
            && !path@.contains('\n') {
            Ok(())
        } else {
            Err("Invalid OAuth listener port or path"@)
        },
{
    if port == 0 || !text::starts_with(path, "/") || text::starts_with(path, "//")
        || text::contains_char(path, '?') || text::contains_char(path, '#') || text::contains_char(
        path,
        '\r',
    ) || text::contains_char(path, '\n') {
        Err("Invalid OAuth listener port or path".to_owned())
    } else {
        Ok(())
    }
}

/// Whether the empty line that ends the head of a request stands at a position.
pub open spec fn head_ends_at(bytes: Seq<u8>, i: int) -> bool {
    &&& 0 <= i
    &&& i + 4 <= bytes.len()
    &&& bytes[i] == 13
    &&& bytes[i + 1] == 10
    &&& bytes[i + 2] == 13
    &&& bytes[i + 3] == 10
}

/// Whether the head of a request is complete.
pub open spec fn head_complete(bytes: Seq<u8>) -> bool {
    exists|i: int| head_ends_at(bytes, i)
}

fn complete(bytes: &Vec<u8>) -> (r: bool)
    ensures
        r == head_complete(bytes@),
{
    let mut i: usize = 0;
    while i < bytes.len() && bytes.len() - i >= 4
        invariant
            i <= bytes@.len(),
            bytes@.len() == bytes.len(),
            forall|k: int| 0 <= k < i ==> !head_ends_at(bytes@, k),
        decreases bytes@.len() - i,
    {
        if bytes[i] == 13 && bytes[i + 1] == 10 && bytes[i + 2] == 13 && bytes[i + 3] == 10 {
            assert(head_ends_at(bytes@, i as int));
            return true;
        }
        assert(!head_ends_at(bytes@, i as int));
        i += 1;
    }
    assert forall|k: int| !head_ends_at(bytes@, k) by {}
    false
}

/// What came of reading from a browser.
pub enum OAuthRead {
    /// Bytes; none when it has hung up.
    Data(Vec<u8>),
    /// Nothing came yet.
    Nothing,
    Failed,
}

/// What to do after reading from a browser.
pub enum OAuthStep {
    /// Read on, if there is time and room.
    Continue,
    /// Wait for another browser.
    GiveUp,
    /// The request is complete.
    Request(String),
}

/// What a browser has sent.
pub struct OAuthRequest {
    pub bytes: Vec<u8>,
}

impl OAuthRequest {
    /// Nothing yet.
    pub fn new() -> (r: OAuthRequest)
        ensures
            r.bytes@.len() == 0,
    {
        OAuthRequest { bytes: Vec::new() }
    }

    /// Whether to go on reading.
    pub fn wants_more(&self, stopped: bool, expired: bool) -> (r: bool)
        ensures
            r == (!stopped && !expired && self.bytes@.len() < OAUTH_REQUEST_LIMIT),
    {
        !stopped && !expired && self.bytes.len() < OAUTH_REQUEST_LIMIT
    }

    /// Takes what was read. A request is complete as soon as its head is; whatever
    /// was read with it belongs to it. One that is not text is given up.
    pub fn read(&mut self, read: OAuthRead) -> (r: OAuthStep)
        ensures
            match read {
                OAuthRead::Data(data) => if data@.len() == 0 {
                    r is GiveUp && final(self).bytes@ == old(self).bytes@
                } else {
                    let all = old(self).bytes@ + data@;
                    if !head_complete(all) {
                        r is Continue && final(self).bytes@ == all
                    } else if valid_utf8(all) {
                        r matches OAuthStep::Request(request) && request@ == decode_utf8(all)
                    } else {
                        r is GiveUp
                    }
                },
                OAuthRead::Nothing => r is Continue && final(self).bytes@ == old(self).bytes@,
                OAuthRead::Failed => r is GiveUp && final(self).bytes@ == old(self).bytes@,
            },
    {
        match read {
            OAuthRead::Data(data) => {
                if data.len() == 0 {
                    return OAuthStep::GiveUp;
                }
                let mut data = data;
                self.bytes.append(&mut data);
                if !complete(&self.bytes) {
                    return OAuthStep::Continue;
                }
                let mut request: Vec<u8> = Vec::new();
                request.append(&mut self.bytes);
                match encoding::strict_text(request) {
                    Some(request) => OAuthStep::Request(request),
                    None => OAuthStep::GiveUp,
                }
            },
            OAuthRead::Nothing => OAuthStep::Continue,
            OAuthRead::Failed => OAuthStep::GiveUp,
        }
    }
}

// ---------------------------------------------------------------------------
// The answer to a browser
// ---------------------------------------------------------------------------

/// Whether a line ends where the text begins.
pub open spec fn line_ends(s: Seq<char>) -> bool {
    s.len() >= 2 && s[0] == '\r' && s[1] == '\n'
}

/// The position of the first end of a line, or the length of the text if there is
/// none.
pub open spec fn line_length(s: Seq<char>) -> int
    decreases s.len(),
{
    if s.len() == 0 || line_ends(s) {
        0
    } else {
        1 + line_length(s.drop_first())
    }
}

/// The lines of a text.
pub open spec fn lines(s: Seq<char>) -> Seq<Seq<char>>
    decreases s.len(),
{
    let n = line_length(s);
    if n + 2 <= s.len() {
        proof {
            lemma_line_length(s);
        }
        seq![s.take(n)] + lines(s.skip(n + 2))
    } else {
        seq![s]
    }
}

/// A line ends with two characters, or with the text.
pub proof fn lemma_line_length(s: Seq<char>)
    ensures
        0 <= line_length(s) <= s.len(),
        line_length(s) < s.len() ==> line_length(s) + 2 <= s.len(),
    decreases s.len(),
{
    if s.len() > 0 && !line_ends(s) {
        lemma_line_length(s.drop_first());
    }
}

fn find_line_end(chars: &Vec<char>, from: usize) -> (r: usize)
    requires
        from <= chars@.len(),
    ensures
        r == from + line_length(chars@.skip(from as int)),
        from <= r <= chars@.len(),
        r < chars@.len() ==> r + 2 <= chars@.len(),
{
    let mut i: usize = from;
    proof {
        lemma_line_length(chars@.skip(from as int));
    }
    while i < chars.len()
        invariant
            from <= i <= chars@.len(),
            chars@.len() == chars.len(),
            from + line_length(chars@.skip(from as int)) == i + line_length(chars@.skip(i as int)),
        decreases chars@.len() - i,
    {
        if chars.len() - i >= 2 && chars[i] == '\r' && chars[i + 1] == '\n' {
            assert(line_ends(chars@.skip(i as int)));
            return i;
        }
        assert(!line_ends(chars@.skip(i as int)));
        assert(chars@.skip(i as int).drop_first() =~= chars@.skip(i + 1));
        i += 1;
    }
    i
}

fn split_lines(s: &str) -> (r: Vec<String>)
    ensures
        text::texts(r@) == lines(s@),
        r@.len() > 0,
{
    let chars = text::chars_of(s);
    let mut r: Vec<String> = Vec::new();
    let mut i: usize = 0;
    assert(chars@.skip(0) =~= s@);
    assert(text::texts(r@) + lines(chars@.skip(0)) =~= lines(s@));
    loop
        invariant_except_break
            i <= chars@.len(),
            lines(s@) == text::texts(r@) + lines(chars@.skip(i as int)),
        ensures
            lines(s@) == text::texts(r@),
            r@.len() > 0,
        decreases chars@.len() - i,
    {
        let ghost rest = chars@.skip(i as int);
        let ghost before = r@;
        let end = find_line_end(&chars, i);
        let line = text::string_between(&chars, i, end);
        assert(line@ =~= rest.take(end - i));
        let ghost found = line@;
        r.push(line);
        assert(text::texts(r@) =~= text::texts(before).push(found));
        if end == chars.len() {
            assert(rest.take(end - i) =~= rest);
            assert(text::texts(before) + seq![rest] =~= text::texts(r@));
            break;
        }
        assert(rest.skip(end - i + 2) =~= chars@.skip(end + 2));
        assert(text::texts(before) + (seq![found] + lines(chars@.skip(end + 2))) =~= text::texts(r@)
            + lines(chars@.skip(end + 2)));
        i = end + 2;
    }
    r
}

/// The value of the first line that gives the host, without the white space around
/// it; nothing if there is no such line.
pub open spec fn host_of(lines: Seq<Seq<char>>) -> Seq<char>
    decreases lines.len(),
{
    if lines.len() == 0 {
        Seq::empty()
    } else {
        match text::halves(lines[0], ':') {
            Some(header) => if text::lowered(header.0) == "host"@ {
                text::trimmed(header.1)
            } else {
                host_of(lines.drop_first())
            },
            None => host_of(lines.drop_first()),
        }
    }
}

fn find_host(lines: &Vec<String>) -> (r: String)
    requires
        lines@.len() > 0,
    ensures
        r@ == host_of(text::texts(lines@).drop_first()),
{
    let ghost all = text::texts(lines@);
    let mut i: usize = 1;
    assert(all.drop_first() =~= all.skip(1));
    while i < lines.len()
        invariant
            1 <= i <= lines@.len(),
            all == text::texts(lines@),
            host_of(all.drop_first()) == host_of(all.skip(i as int)),
        decreases lines@.len() - i,
    {
        assert(all.skip(i as int)[0] == lines@[i as int]@);
        assert(all.skip(i as int).drop_first() =~= all.skip(i + 1));
        if let Some(header) = text::split_once(lines[i].as_str(), ':') {
            if text::same_text(text::lower(header.0.as_str()).as_str(), "host") {
                return text::trim(header.1.as_str());
            }
        }
        i += 1;
    }
    String::new()
}

/// A word of a line, or nothing.
pub open spec fn word(words: Seq<Seq<char>>, i: int) -> Seq<char> {
    if i < words.len() {
        words[i]
    } else {
        Seq::empty()
    }
}

fn take_word(words: &Vec<String>, i: usize) -> (r: String)
    ensures
        r@ == word(text::texts(words@), i as int),
{
    if i < words.len() {
        words[i].as_str().to_owned()
    } else {
        String::new()
    }
}

/// An address, as far as the listener reads it.
pub struct ParsedUrl {
    pub path: String,
    pub pairs: Vec<(String, String)>,
    pub text: String,
}

/// The model of an address: its path, the names and values of its query, and how it
/// is written.
pub struct UrlParts {
    pub path: Seq<char>,
    pub pairs: Seq<(Seq<char>, Seq<char>)>,
    pub text: Seq<char>,
}

impl View for ParsedUrl {
    type V = UrlParts;

    open spec fn view(&self) -> UrlParts {
        UrlParts { path: self.path@, pairs: header_texts(self.pairs@), text: self.text@ }
    }
}

/// The parts of a text that the crate `url` takes for an address.
pub uninterp spec fn url_parts(text: Seq<char>) -> Option<UrlParts>;

/// `url::Url::parse`, and `path`, `query_pairs` and `as_str` on its result.
#[verifier::external_body]
pub(crate) fn parse_url(text: &str) -> (r: Option<ParsedUrl>)
    ensures
        match r {
            Some(url) => url_parts(text@) == Some(url@),
            None => url_parts(text@) is None,
        },
{
    url::Url::parse(text).ok().map(
        |url| ParsedUrl {
            path: url.path().to_owned(),
            pairs: url.query_pairs().into_owned().collect(),
            text: url.as_str().to_owned(),
        },
    )
}

/// What the user interface is told.
pub struct OAuthResult {
    pub url: String,
    pub state: Option<String>,
    pub code: Option<String>,
    pub error: Option<String>,
}

/// The model of what the user interface is told.
pub struct Grant {
    pub url: Seq<char>,
    pub state: Option<Seq<char>>,
    pub code: Option<Seq<char>>,
    pub error: Option<Seq<char>>,
}

impl View for OAuthResult {
    type V = Grant;

    open spec fn view(&self) -> Grant {
        Grant {
            url: self.url@,
            state: text::opt_text(self.state),
            code: text::opt_text(self.code),
            error: text::opt_text(self.error),
        }
    }
}

/// The first value of a name in a query.
pub open spec fn query_value(pairs: Seq<(Seq<char>, Seq<char>)>, name: Seq<char>) -> Option<
    Seq<char>,
> {
    let i = header_position(pairs, name);
    if i < pairs.len() {
        Some(pairs[i].1)
    } else {
        None
    }
}

fn find_value(pairs: &Vec<(String, String)>, name: &str) -> (r: Option<String>)
    ensures
        text::opt_text(r) == query_value(header_texts(pairs@), name@),
{
    let i = find_header(pairs, name);
    if i < pairs.len() {
        Some(pairs[i].1.as_str().to_owned())
    } else {
        None
    }
}

/// How a request is answered.
pub enum OAuthAnswer {
    InvalidRequest,
    InvalidHost,
    InvalidUrl,
    NotFound,
    /// All is done.
    Complete(OAuthResult),
}

/// The model of an answer.
pub enum Answer {
    InvalidRequest,
    InvalidHost,
    InvalidUrl,
    NotFound,
    Complete(Grant),
}

impl View for OAuthAnswer {
    type V = Answer;

    open spec fn view(&self) -> Answer {
        match *self {
            OAuthAnswer::InvalidRequest => Answer::InvalidRequest,
            OAuthAnswer::InvalidHost => Answer::InvalidHost,
            OAuthAnswer::InvalidUrl => Answer::InvalidUrl,
            OAuthAnswer::NotFound => Answer::NotFound,
            OAuthAnswer::Complete(result) => Answer::Complete(result@),
        }
    }
}

/// Whether the words of the first line make a request: a method, an address on this
/// host and a version, and no more.
pub open spec fn is_request(words: Seq<Seq<char>>) -> bool {
    &&& word(words, 2) == "HTTP/1.0"@ || word(words, 2) == "HTTP/1.1"@
    &&& words.len() <= 3
    &&& text::begins(word(words, 1), "/"@)
    &&& !text::begins(word(words, 1), "//"@)
}

/// Whether a browser asks this very listener, by one of its two names.
pub open spec fn is_own_host(host: Seq<char>, port: u16) -> bool {
    ||| host == "localhost:"@ + text::decimal(port as nat)
    ||| host == "127.0.0.1:"@ + text::decimal(port as nat)
}

/// The address that a browser asks for.
pub open spec fn asked_url(request: Seq<char>) -> Seq<char> {
    "http://"@ + host_of(lines(request).drop_first()) + word(text::words(lines(request)[0]), 1)
}

/// How a request is answered that asks for an address with these parts.
pub open spec fn answer_to_url(
    method: Seq<char>,
    path: Seq<char>,
    url: Option<UrlParts>,
) -> Answer {
    match url {
        None => Answer::InvalidUrl,
        Some(url) => if method != "GET"@ || !text::begins(url.path, path) {
            Answer::NotFound
        } else {
            Answer::Complete(
                Grant {
                    url: url.text,
                    state: query_value(url.pairs, "state"@),
                    code: query_value(url.pairs, "code"@),
                    error: query_value(url.pairs, "error"@),
                },
            )
        },
    }
}

/// How a request is answered.
pub open spec fn answer(request: Seq<char>, path: Seq<char>, port: u16) -> Answer {
    let first = text::words(lines(request)[0]);
    let host = host_of(lines(request).drop_first());
    if !is_request(first) {
        Answer::InvalidRequest
    } else if !is_own_host(host, port) {
        Answer::InvalidHost
    } else {
        answer_to_url(word(first, 0), path, url_parts(asked_url(request)))
    }
}

/// Answers a request for an address.
pub fn answer_url(method: &str, path: &str, url: Option<ParsedUrl>) -> (r: OAuthAnswer)
    ensures
        r@ == answer_to_url(
            method@,
            path@,
            match url {
                Some(url) => Some(url@),
                None => None,
            },
        ),
{
    let url = match url {
        Some(url) => url,
        None => return OAuthAnswer::InvalidUrl,
    };
    if !text::same_text(method, "GET") || !text::starts_with(url.path.as_str(), path) {
        return OAuthAnswer::NotFound;
    }
    OAuthAnswer::Complete(
        OAuthResult {
            state: find_value(&url.pairs, "state"),
            code: find_value(&url.pairs, "code"),
            error: find_value(&url.pairs, "error"),
            url: url.text,
        },
    )
}

/// Answers a request to the listener on a port.
pub fn oauth_answer(request: &str, path: &str, port: u16) -> (r: OAuthAnswer)
    ensures
        r@ == answer(request@, path@, port),
{
    let all = split_lines(request);
    assert(text::texts(all@)[0] == all@[0]@);
    let first = text::split_words(all[0].as_str());
    let method = take_word(&first, 0);
    let target = take_word(&first, 1);
    let version = take_word(&first, 2);
    if !(text::same_text(version.as_str(), "HTTP/1.0") || text::same_text(
        version.as_str(),
        "HTTP/1.1",
    )) || first.len() > 3 || !text::starts_with(target.as_str(), "/") || text::starts_with(
        target.as_str(),
        "//",
    ) {
        return OAuthAnswer::InvalidRequest;
    }
    let host = find_host(&all);
    let number = text::decimal_text(port as u64);
    if !text::same_text(host.as_str(), text::concat("localhost:", number.as_str()).as_str())
        && !text::same_text(host.as_str(), text::concat("127.0.0.1:", number.as_str()).as_str()) {
        return OAuthAnswer::InvalidHost;
    }
    let url = parse_url(text::concat3("http://", host.as_str(), target.as_str()).as_str());
    answer_url(method.as_str(), path, url)
}

/// A response to a browser. The length of its body counts bytes.
pub open spec fn response_text(status: Seq<char>, body: Seq<char>) -> Seq<char> {
    "HTTP/1.1 "@ + status
        + "\r\nContent-Type: text/html; charset=UTF-8\r\nContent-Length: "@ + text::decimal(
        encode_utf8(body).len(),
    )
        + "\r\nConnection: close\r\nCache-Control: no-store\r\nContent-Security-Policy: default-src 'none'; frame-ancestors 'none'\r\n\r\n"@
        + body
}

/// A response to a browser.
pub fn oauth_response(status: &str, body: &str) -> (r: String)
    ensures
        r@ == response_text(status@, body@),
{
    let mut r = text::concat3(
        "HTTP/1.1 ",
        status,
        "\r\nContent-Type: text/html; charset=UTF-8\r\nContent-Length: ",
    );
    r.append(text::decimal_text(text::byte_len(body) as u64).as_str());
    r.append(
        "\r\nConnection: close\r\nCache-Control: no-store\r\nContent-Security-Policy: default-src 'none'; frame-ancestors 'none'\r\n\r\n",
    );
    r.append(body);
    r
}

/// The response that goes with an answer.
pub open spec fn answer_response(answer: Answer) -> Seq<char> {
    match answer {
        Answer::InvalidRequest => response_text("400 Bad Request"@, "Invalid request"@),
        Answer::InvalidHost => response_text("400 Bad Request"@, "Invalid host"@),
        Answer::InvalidUrl => response_text("400 Bad Request"@, "Invalid URL"@),
        Answer::NotFound => response_text("404 Not Found"@, "Not found"@),
        Answer::Complete(_) => response_text("200 OK"@, OAUTH_HTML@),
    }
}

impl OAuthAnswer {
    /// The response that goes with the answer.
    pub fn response(&self) -> (r: String)
        ensures
            r@ == answer_response(self@),
    {
        match self {
            OAuthAnswer::InvalidRequest => oauth_response("400 Bad Request", "Invalid request"),
            OAuthAnswer::InvalidHost => oauth_response("400 Bad Request", "Invalid host"),
            OAuthAnswer::InvalidUrl => oauth_response("400 Bad Request", "Invalid URL"),
            OAuthAnswer::NotFound => oauth_response("404 Not Found", "Not found"),
            OAuthAnswer::Complete(_) => oauth_response("200 OK", OAUTH_HTML),
        }
    }
}

// ---------------------------------------------------------------------------
// The listener
// ---------------------------------------------------------------------------

/// What came of waiting for a browser.
pub enum Accepted {
    Connection,
    Interrupted,
    Failed(String),
}

/// What to do next.
pub enum ListenStep {
    /// Read the request of the browser.
    Serve,
    /// Wait for another browser.
    Wait,
    /// Tell this and stop.
    Report(OAuthResult),
    /// Stop.
    Stop,
}

/// What to do after waiting for a browser.
pub fn oauth_accepted(accepted: Accepted, stopped: bool, path: &str, port: u16) -> (r: ListenStep)
    ensures
        if stopped {
            r is Stop
        } else {
            match accepted {
                Accepted::Connection => r is Serve,
                Accepted::Interrupted => r is Wait,
                Accepted::Failed(message) => r matches ListenStep::Report(result) && result@ == (
                Grant {
                    url: "http://127.0.0.1:"@ + text::decimal(port as nat) + path@,
                    state: None,
                    code: None,
                    error: Some(message@),
                }),
            }
        },
{
    if stopped {
        return ListenStep::Stop;
    }
    match accepted {
        Accepted::Connection => ListenStep::Serve,
        Accepted::Interrupted => ListenStep::Wait,
        Accepted::Failed(message) => {
            let number = text::decimal_text(port as u64);
            ListenStep::Report(
                OAuthResult {
                    url: text::concat3("http://127.0.0.1:", number.as_str(), path),
                    state: None,
                    code: None,
                    error: Some(message),
                },
            )
        },
    }
}

/// What a browser is sent, and what the listener does after that.
pub struct Served {
    /// The response, if there is one.
    pub response: Option<String>,
    /// What to tell when the listener has ended, if it ends.
    pub result: Option<OAuthResult>,
}

/// Serves the request of a browser, if it is complete and nobody has stopped the
/// listener meanwhile. The listener ends with the first request that is answered as
/// asked for; all others are refused and forgotten.
pub fn run_oauth_listener(request: Option<String>, stopped: bool, path: &str, port: u16) -> (r:
    Served)
    ensures
        match request {
            Some(request) => if stopped {
                r.response is None && r.result is None
            } else {
                &&& text::opt_text(r.response) == Some(answer_response(answer(request@, path@, port)))
                &&& match r.result {
                    Some(result) => answer(request@, path@, port) == Answer::Complete(result@),
                    None => !(answer(request@, path@, port) is Complete),
                }
            },
            None => r.response is None && r.result is None,
        },
{
    let request = match request {
        Some(request) => request,
        None => return Served { response: None, result: None },
    };
    if stopped {
        return Served { response: None, result: None };
    }
    let answer = oauth_answer(request.as_str(), path, port);
    let response = Some(answer.response());
    match answer {
        OAuthAnswer::Complete(result) => Served { response, result: Some(result) },
        _ => Served { response, result: None },
    }
}

/// What is told when the listener has ended: nothing if somebody has stopped it.
pub fn oauth_ended(result: Option<OAuthResult>, stopped: bool) -> (r: Option<OAuthResult>)
    ensures
        r == if stopped {
            None
        } else {
            result
        },
{
    if stopped {
        None
    } else {
        result
    }
}

/// Only a request to this very listener can end it with a result: not one that a
/// page sends under another name of this computer.
pub proof fn law_result_needs_own_host(request: Seq<char>, path: Seq<char>, port: u16)
    requires
        answer(request, path, port) is Complete,
    ensures
        is_own_host(host_of(lines(request).drop_first()), port),
        is_request(text::words(lines(request)[0])),
        word(text::words(lines(request)[0]), 0) == "GET"@,
        url_parts(asked_url(request)) matches Some(url) && text::begins(url.path, path),
{
}

/// What a query gives for a name: the value of the first pair with that name, and nothing
/// exactly if no pair has it. The other pairs do not matter.
pub open spec fn is_first_value(
    pairs: Seq<(String, String)>,
    name: Seq<char>,
    value: Option<String>,
) -> bool {
    match value {
        Some(value) => exists|i: int|
            {
                &&& 0 <= i < pairs.len()
                &&& (#[trigger] pairs[i]).0@ == name
                &&& pairs[i].1@ == value@
                &&& forall|k: int| 0 <= k < i ==> (#[trigger] pairs[k]).0@ != name
            },
        None => forall|k: int| 0 <= k < pairs.len() ==> (#[trigger] pairs[k]).0@ != name,
    }
}

proof fn lemma_first_value(pairs: Seq<(String, String)>, name: Seq<char>, value: Option<String>)
    requires
        text::opt_text(value) == query_value(header_texts(pairs), name),
    ensures
        is_first_value(pairs, name, value),
{
    let all = header_texts(pairs);
    lemma_header_position(all, name);
    let i = header_position(all, name);
    assert forall|k: int| 0 <= k < i && k < pairs.len() implies (#[trigger] pairs[k]).0@ != name by {
        assert(all[k].0 == pairs[k].0@);
    }
    if i < pairs.len() {
        assert(all[i].0 == pairs[i].0@ && all[i].1 == pairs[i].1@);
    }
}

/// What the listener hands on of an address is the address itself and, for each of state,
/// code and error, the value of the first pair with that name, whichever other pairs the
/// query holds; it hands on anything only for a GET below its path.
pub proof fn law_first_values_are_handed_on(
    method: &str,
    path: &str,
    url: Option<ParsedUrl>,
    r: OAuthAnswer,
)
    requires
        call_ensures(answer_url, (method, path, url), r),
    ensures
        r is Complete <==> url is Some && method@ == "GET"@ && path@.is_prefix_of(
            url->Some_0.path@,
        ),
        r is InvalidUrl <==> url is None,
        r is Complete || r is InvalidUrl || r is NotFound,
        r is Complete ==> is_first_value(url->Some_0.pairs@, "state"@, r->Complete_0.state),
        r is Complete ==> is_first_value(url->Some_0.pairs@, "code"@, r->Complete_0.code),
        r is Complete ==> is_first_value(url->Some_0.pairs@, "error"@, r->Complete_0.error),
        r is Complete ==> r->Complete_0.url@ == url->Some_0.text@,
{
    if let Some(url) = url {
        let prefix = url.path@.subrange(0, path@.len() as int);
        if path@.len() <= url.path@.len() {
            assert(prefix == path@ <==> path@.is_prefix_of(url.path@));
        }
        if let OAuthAnswer::Complete(result) = r {
            lemma_first_value(url.pairs@, "state"@, result.state);
            lemma_first_value(url.pairs@, "code"@, result.code);
            lemma_first_value(url.pairs@, "error"@, result.error);
        }
    }
}

/// Every header that came is there under its name, once, with all its values in the order
/// in which they came; and there is no other.
pub proof fn law_merged_headers(raw: &Vec<(String, Vec<u8>)>, name: Seq<char>, r: Vec<(String, String)>)
    requires
        call_ensures(merge_headers, (raw,), r),
    ensures
        forall|i: int, j: int|
            0 <= i < j < r@.len() ==> (#[trigger] r@[i]).0@ != (#[trigger] r@[j]).0@,
        values_of(raw@, name).len() > 0 <==> exists|i: int|
            0 <= i < r@.len() && (#[trigger] r@[i]).0@ == name,
        forall|i: int|
            0 <= i < r@.len() && (#[trigger] r@[i]).0@ == name ==> r@[i].1@ == text::joined(
                values_of(raw@, name),
                ", "@,
            ),
{
    let merged = merged_headers(raw@);
    assert(header_texts(r@) == merged);
    assert(merged.len() == r@.len());
    assert forall|i: int, j: int| 0 <= i < j < r@.len() implies (#[trigger] r@[i]).0@ != (
    #[trigger] r@[j]).0@ by {
        law_header_names_are_distinct(raw@, i, j);
        assert(merged[i] == header_texts(r@)[i] && merged[j] == header_texts(r@)[j]);
    }
    law_header_values_are_kept(raw@, name);
    lemma_header_position(merged, name);
    let at = header_position(merged, name);
    if at < merged.len() {
        assert(header_texts(r@)[at] == (r@[at].0@, r@[at].1@));
        assert(r@[at].0@ == name);
    }
    assert forall|i: int| 0 <= i < r@.len() && (#[trigger] r@[i]).0@ == name implies i == at
        && at < merged.len() by {
        assert(header_texts(r@)[i] == (r@[i].0@, r@[i].1@));
        assert(merged[i].0 == name);
        if at < i {
            assert(merged[at].0 == name);
            law_header_names_are_distinct(raw@, at, i);
        }
    }
}

/// The values of a name are those of the headers with that name, one for one.
pub proof fn law_values_of_a_name(raw: Seq<(String, Vec<u8>)>, more: Seq<(String, Vec<u8>)>, name: Seq<
    char,
>)
    ensures
        values_of(raw + more, name) == values_of(raw, name) + values_of(more, name),
        raw.len() == 1 && raw[0].0@ == name ==> values_of(raw, name) == seq![
            encoding::lossy(raw[0].1@),
        ],
        raw.len() == 1 && raw[0].0@ != name ==> values_of(raw, name).len() == 0,
    decreases more.len(),
{
    if raw.len() == 1 {
        assert(raw.drop_last() =~= Seq::empty());
        assert(values_of(raw.drop_last(), name) == Seq::<Seq<char>>::empty());
        if raw[0].0@ == name {
            assert(values_of(raw, name) =~= seq![encoding::lossy(raw[0].1@)]);
        }
    }
    if more.len() == 0 {
        assert(raw + more =~= raw);
        assert(values_of(raw, name) + values_of(more, name) =~= values_of(raw, name));
    } else {
        law_values_of_a_name(raw, more.drop_last(), name);
        assert((raw + more).drop_last() =~= raw + more.drop_last());
        assert((raw + more).last() == more.last());
        assert(values_of(raw + more, name) =~= values_of(raw, name) + values_of(more, name));
    }
}

/// A response is told as it came, whatever its status.
pub proof fn law_response_is_told(
    status: u16,
    raw: &Vec<(String, Vec<u8>)>,
    data: Vec<u8>,
    headers: Vec<(String, String)>,
    r: HttpResponse,
)
    requires
        call_ensures(merge_headers, (raw,), headers),
        call_ensures(http_response, (status, raw, data), r),
    ensures
        r.status == status,
        r.data@ == data@,
        header_texts(r.headers@) == header_texts(headers@),
{
}

/// A download succeeds with status 200 and no other, which is told in decimal.
pub proof fn law_download_status(status: u16, r: Result<(), String>)
    requires
        call_ensures(download_status, (status,), r),
    ensures
        r is Ok <==> status == 200,
        r matches Err(e) ==> e@ == "HTTP status "@ + text::decimal(status as nat),
{
}

proof fn lemma_hexadecimal_tells_apart(a: nat, b: nat, width: nat, limit: nat)
    requires
        a < limit,
        b < limit,
        limit == pow(16, width),
        text::hexadecimal(a, width) == text::hexadecimal(b, width),
    ensures
        a == b,
    decreases width,
{
    reveal(pow);
    if width > 0 {
        let x = text::hexadecimal(a / 16, (width - 1) as nat);
        let y = text::hexadecimal(b / 16, (width - 1) as nat);
        let u = text::hexadecimal(a, width);
        let v = text::hexadecimal(b, width);
        assert(u == x.push(text::digits()[(a % 16) as int]));
        assert(v == y.push(text::digits()[(b % 16) as int]));
        assert(u.last() == v.last());
        assert(u.drop_last() =~= x);
        assert(v.drop_last() =~= y);
        let d = text::digits();
        let i = (a % 16) as int;
        let j = (b % 16) as int;
        assert(d[i] == d[j]);
        assert(i == j) by {
            assert(0 <= i < 16 && 0 <= j < 16);
            assert((d[i] as int) == if i < 10 {
                48 + i
            } else {
                87 + i
            });
            assert((d[j] as int) == if j < 10 {
                48 + j
            } else {
                87 + j
            });
        }
        let smaller = pow(16, (width - 1) as nat);
        assert(limit == 16 * smaller);
        lemma_hexadecimal_tells_apart(a / 16, b / 16, (width - 1) as nat, smaller as nat);
    } else {
        assert(limit == 1);
    }
}

/// A partial download is hidden, named after the file, and told apart by its number.
pub proof fn law_partial_names(name: &str, number: u64, other: u64, r: String, q: String)
    requires
        call_ensures(temporary_name, (name, number), r),
        call_ensures(temporary_name, (name, other), q),
    ensures
        ("."@ + name@ + ".download-"@).is_prefix_of(r@),
        r@ == q@ ==> number == other,
{
    let start = "."@ + name@ + ".download-"@;
    let a = text::hexadecimal(number as nat, 16);
    let b = text::hexadecimal(other as nat, 16);
    assert(start.is_prefix_of(r@));
    if r@ == q@ {
        assert(r@.skip(start.len() as int) =~= a);
        assert(q@.skip(start.len() as int) =~= b);
        assert(pow(16, 16) == 0x1_0000_0000_0000_0000) by {
            reveal_with_fuel(pow, 17);
        }
        lemma_hexadecimal_tells_apart(number as nat, other as nat, 16, 0x1_0000_0000_0000_0000);
    }
}

/// A download is copied, then brought to the disk, then renamed, and is done after that;
/// whatever fails, the partial file is removed and the failure told.
pub proof fn law_download_stages(stage: DownloadStage, failure: Option<String>, r: DownloadStep)
    requires
        call_ensures(download_next, (stage, failure), r),
    ensures
        failure matches Some(message) ==> r is Remove && r->Remove_0@ == message@,
        failure is None ==> !(r is Remove),
        failure is None ==> (r is Done <==> stage is Rename),
        r matches DownloadStep::Go(next) ==> (stage is Copy <==> next is Sync) && (stage is Sync
            <==> next is Rename),
{
}

/// A listener needs a port and a path that begins with one slash and holds neither a query
/// nor a fragment nor a line break.
pub proof fn law_listener_paths(port: u16, path: &str, r: Result<(), String>)
    requires
        call_ensures(oauth_listener_start, (port, path), r),
    ensures
        r is Ok <==> port != 0 && path@.len() > 0 && path@[0] == '/' && !(path@.len() > 1 && path@[1]
            == '/') && !path@.contains('?') && !path@.contains('#') && !path@.contains('\r')
            && !path@.contains('\n'),
        r matches Err(e) ==> e@ == "Invalid OAuth listener port or path"@,
{
    lemma_slashes(path@);
}

proof fn lemma_slashes(path: Seq<char>)
    ensures
        text::begins(path, "/"@) <==> path.len() > 0 && path[0] == '/',
        text::begins(path, "//"@) <==> path.len() > 1 && path[0] == '/' && path[1] == '/',
{
    reveal_strlit("/");
    reveal_strlit("//");
    assert("/"@ =~= seq!['/']);
    assert("//"@ =~= seq!['/', '/']);
    if path.len() > 0 {
        let one = path.subrange(0, 1);
        assert(one[0] == path[0]);
        if path[0] == '/' {
            assert(one =~= "/"@);
        }
    }
    if path.len() > 1 {
        let two = path.subrange(0, 2);
        assert(two[0] == path[0] && two[1] == path[1]);
        if path[0] == '/' && path[1] == '/' {
            assert(two =~= "//"@);
        }
    }
}

proof fn lemma_line(s: Seq<char>)
    ensures
        line_length(s) < s.len() ==> s[line_length(s)] == '\r' && s[line_length(s) + 1] == '\n',
        forall|i: int|
            0 <= i < line_length(s) && i + 1 < s.len() ==> !(#[trigger] s[i] == '\r' && s[i + 1]
                == '\n'),
    decreases s.len(),
{
    lemma_line_length(s);
    if s.len() > 0 && !line_ends(s) {
        let rest = s.drop_first();
        lemma_line(rest);
        lemma_line_length(rest);
        assert forall|i: int| 0 <= i < line_length(s) && i + 1 < s.len() implies !(
        #[trigger] s[i] == '\r' && s[i + 1] == '\n') by {
            if i > 0 {
                assert(rest[i - 1] == s[i] && rest[i] == s[i + 1]);
            }
        }
    }
}

/// The lines make up the text again with line breaks between them, and no line holds one.
pub proof fn law_lines(s: Seq<char>)
    ensures
        lines(s).len() > 0,
        text::joined(lines(s), "\r\n"@) == s,
        forall|i: int, k: int|
            0 <= i < lines(s).len() && 0 <= k && k + 1 < lines(s)[i].len() ==> !(
            #[trigger] lines(s)[i][k] == '\r' && lines(s)[i][k + 1] == '\n'),
    decreases s.len(),
{
    reveal_strlit("\r\n");
    assert("\r\n"@ =~= seq!['\r', '\n']);
    lemma_line_length(s);
    lemma_line(s);
    let n = line_length(s);
    let all = lines(s);
    if n + 2 <= s.len() {
        let rest = s.skip(n + 2);
        law_lines(rest);
        let first = seq![s.take(n)];
        assert(all =~= first + lines(rest));
        text::law_joining(first, lines(rest), "\r\n"@);
        assert(text::joined(first, "\r\n"@) == s.take(n));
        assert(s.take(n) + "\r\n"@ + rest =~= s);
        assert forall|i: int, k: int|
            0 <= i < all.len() && 0 <= k && k + 1 < all[i].len() implies !(#[trigger] all[i][k]
            == '\r' && all[i][k + 1] == '\n') by {
            if i == 0 {
                assert(all[0] == s.take(n));
                assert(s[k] == all[0][k] && s[k + 1] == all[0][k + 1]);
            } else {
                assert(all[i] == lines(rest)[i - 1]);
                assert(lines(rest)[i - 1][k] == all[i][k]);
            }
        }
    } else {
        assert(all =~= seq![s]);
        assert(text::joined(all, "\r\n"@) == all[0]);
        assert forall|i: int, k: int|
            0 <= i < all.len() && 0 <= k && k + 1 < all[i].len() implies !(#[trigger] all[i][k]
            == '\r' && all[i][k + 1] == '\n') by {
            assert(all[i] == s);
            assert(s[k] == all[i][k] && s[k + 1] == all[i][k + 1]);
        }
    }
}

/// A header line with the name of the host, in whatever case it is written.
pub open spec fn names_host(line: Seq<char>) -> bool {
    text::halves(line, ':') matches Some(header) && text::lowered(header.0) == "host"@
}

/// The host is the value of the first header with that name, without the white space around
/// it, and empty if there is no such header.
pub proof fn law_first_host_counts(lines: Seq<Seq<char>>, i: int)
    requires
        0 <= i <= lines.len(),
        i < lines.len() ==> names_host(lines[i]),
        forall|k: int| 0 <= k < i ==> !names_host(#[trigger] lines[k]),
    ensures
        i < lines.len() ==> text::is_core(
            text::halves(lines[i], ':')->Some_0.1,
            host_of(lines),
        ),
        i == lines.len() ==> host_of(lines).len() == 0,
    decreases lines.len(),
{
    if lines.len() > 0 {
        if i == 0 {
            text::law_trimming_drops_only_white_ends(text::halves(lines[0], ':')->Some_0.1);
        } else {
            let rest = lines.drop_first();
            assert(!names_host(lines[0]));
            assert forall|k: int| 0 <= k < i - 1 implies !names_host(#[trigger] rest[k]) by {
                assert(rest[k] == lines[k + 1]);
            }
            law_first_host_counts(rest, i - 1);
        }
    }
}

/// What is wrong with a request is looked at in order: its first line, then its host. A
/// request that passes is answered like its address.
pub proof fn law_order_of_answers(
    request: &str,
    path: &str,
    port: u16,
    method: &str,
    url: Option<ParsedUrl>,
    by_url: OAuthAnswer,
    r: OAuthAnswer,
)
    requires
        call_ensures(oauth_answer, (request, path, port), r),
        call_ensures(answer_url, (method, path, url), by_url),
    ensures
        ({
            let first = text::words(lines(request@)[0]);
            let host = host_of(lines(request@).drop_first());
            let fine = first.len() == 3 && (first[2] == "HTTP/1.0"@ || first[2] == "HTTP/1.1"@)
                && first[1].len() > 0 && first[1][0] == '/' && !(first[1].len() > 1 && first[1][1]
                == '/');
            let own = host == "localhost:"@ + text::decimal(port as nat) || host == "127.0.0.1:"@
                + text::decimal(port as nat);
            let asked = "http://"@ + host + first[1];
            &&& r is InvalidRequest <==> !fine
            &&& r is InvalidHost <==> fine && !own
            &&& fine && own && method@ == first[0] && (url is None ==> url_parts(asked) is None) && (
            url matches Some(u) ==> url_parts(asked) == Some(u@)) ==> r@ == by_url@
        }),
{
    let first = text::words(lines(request@)[0]);
    reveal_strlit("HTTP/1.0");
    reveal_strlit("HTTP/1.1");
    assert("HTTP/1.0"@.len() == 8 && "HTTP/1.1"@.len() == 8);
    lemma_slashes(word(first, 1));
}

/// A response states its status first and the length of its body in bytes, and ends with
/// the body; it is not kept, and nothing else is loaded for it.
pub proof fn law_response(status: &str, body: &str, r: String)
    requires
        call_ensures(oauth_response, (status, body), r),
    ensures
        ("HTTP/1.1 "@ + status@ + "\r\n"@).is_prefix_of(r@),
        ("\r\n\r\n"@ + body@).is_suffix_of(r@),
        text::occurs(
            r@,
            "\r\nContent-Length: "@ + text::decimal(encode_utf8(body@).len()) + "\r\n"@,
        ),
        text::occurs(r@, "\r\nContent-Type: text/html; charset=UTF-8\r\n"@),
        text::occurs(r@, "\r\nConnection: close\r\n"@),
        text::occurs(r@, "\r\nCache-Control: no-store\r\n"@),
        text::occurs(
            r@,
            "\r\nContent-Security-Policy: default-src 'none'; frame-ancestors 'none'\r\n"@,
        ),
{
    reveal_strlit("HTTP/1.1 ");
    reveal_strlit("\r\n");
    reveal_strlit("\r\n\r\n");
    reveal_strlit("\r\nContent-Length: ");
    reveal_strlit("\r\nContent-Type: text/html; charset=UTF-8\r\n");
    reveal_strlit("\r\nContent-Type: text/html; charset=UTF-8\r\nContent-Length: ");
    reveal_strlit("\r\nConnection: close\r\n");
    reveal_strlit("\r\nCache-Control: no-store\r\n");
    reveal_strlit("\r\nContent-Security-Policy: default-src 'none'; frame-ancestors 'none'\r\n");
    reveal_strlit(
        "\r\nConnection: close\r\nCache-Control: no-store\r\nContent-Security-Policy: default-src 'none'; frame-ancestors 'none'\r\n\r\n",
    );
    let first = "HTTP/1.1 "@ + status@;
    let kind =
        "\r\nContent-Type: text/html; charset=UTF-8\r\nContent-Length: "@;
    let length = text::decimal(encode_utf8(body@).len());
    let tail =
        "\r\nConnection: close\r\nCache-Control: no-store\r\nContent-Security-Policy: default-src 'none'; frame-ancestors 'none'\r\n\r\n"@;
    let all = r@;
    assert(all == first + kind + length + tail + body@);
    let a = first.len() as int;
    let b = a + kind.len();
    let c = b + length.len();
    let d = c + tail.len();
    assert(kind.len() == 58);
    assert(("HTTP/1.1 "@ + status@ + "\r\n"@).is_prefix_of(all));
    let end = "\r\n\r\n"@ + body@;
    assert(all.skip(d - 4) =~= end);
    assert(end.is_suffix_of(all));
    let t1 = "\r\nContent-Type: text/html; charset=UTF-8\r\n"@;
    assert(all.subrange(a, a + t1.len()) =~= t1);
    assert(text::occurs_at(all, t1, a));
    let t2 = "\r\nContent-Length: "@ + length + "\r\n"@;
    let p = b - "\r\nContent-Length: "@.len();
    assert(all.subrange(p, p + t2.len()) =~= t2);
    assert(text::occurs_at(all, t2, p));
    let t3 = "\r\nConnection: close\r\n"@;
    assert(all.subrange(c, c + t3.len()) =~= t3);
    assert(text::occurs_at(all, t3, c));
    let t4 = "\r\nCache-Control: no-store\r\n"@;
    let q = c + t3.len() - 2;
    assert(all.subrange(q, q + t4.len()) =~= t4);
    assert(text::occurs_at(all, t4, q));
    let t5 = "\r\nContent-Security-Policy: default-src 'none'; frame-ancestors 'none'\r\n"@;
    let v = q + t4.len() - 2;
    assert(all.subrange(v, v + t5.len()) =~= t5);
    assert(text::occurs_at(all, t5, v));
}

/// What a browser is answered: the page for what was asked for, not found for other
/// addresses, and a bad request for the rest.
pub proof fn law_statuses(answer: &OAuthAnswer, r: String)
    requires
        call_ensures(OAuthAnswer::response, (answer,), r),
    ensures
        *answer is Complete ==> r@ == response_text("200 OK"@, OAUTH_HTML@),
        *answer is NotFound ==> r@ == response_text("404 Not Found"@, "Not found"@),
        *answer is InvalidRequest ==> r@ == response_text("400 Bad Request"@, "Invalid request"@),
        *answer is InvalidHost ==> r@ == response_text("400 Bad Request"@, "Invalid host"@),
        *answer is InvalidUrl ==> r@ == response_text("400 Bad Request"@, "Invalid URL"@),
{
}

/// A request is answered and its result reported unless the listener was stopped; without
/// a request nothing happens.
pub proof fn law_served(
    request: Option<String>,
    text: &str,
    stopped: bool,
    path: &str,
    port: u16,
    answer: OAuthAnswer,
    response: String,
    r: Served,
)
    requires
        call_ensures(run_oauth_listener, (request, stopped, path, port), r),
        request matches Some(request) ==> request@ == text@,
        call_ensures(oauth_answer, (text, path, port), answer),
        call_ensures(OAuthAnswer::response, (&answer,), response),
    ensures
        stopped || request is None ==> r.response is None && r.result is None,
        !stopped && request is Some ==> {
            &&& r.response is Some && r.response->Some_0@ == response@
            &&& r.result is Some <==> answer is Complete
            &&& r.result is Some ==> r.result->Some_0@ == answer->Complete_0@
        },
{
}

/// A listener that was stopped reports nothing any more. A failure to listen is reported as
/// an error for its own address.
pub proof fn law_listening(
    accepted: Accepted,
    stopped: bool,
    path: &str,
    port: u16,
    r: ListenStep,
    result: Option<OAuthResult>,
    ended: Option<OAuthResult>,
)
    requires
        call_ensures(oauth_accepted, (accepted, stopped, path, port), r),
        call_ensures(oauth_ended, (result, stopped), ended),
    ensures
        stopped <==> r is Stop,
        stopped ==> ended is None,
        !stopped ==> ended == result,
        !stopped ==> (accepted is Connection <==> r is Serve),
        !stopped ==> (accepted is Interrupted <==> r is Wait),
        r matches ListenStep::Report(told) ==> accepted is Failed && told.error is Some
            && told.error->Some_0@ == accepted->Failed_0@ && told.state is None && told.code is None
            && told.url@ == "http://127.0.0.1:"@ + text::decimal(port as nat) + path@,
{
}

/// What is read of a request adds up until an empty line ends its head; then the request is
/// handed on as a whole, if it is text. A client that hangs up, or cannot be read, is given
/// up.
pub proof fn law_request_adds_up(request: &mut OAuthRequest, read: OAuthRead, r: OAuthStep)
    requires
        call_ensures(OAuthRequest::read, (request, read), r),
    ensures
        read is Nothing ==> r is Continue && final(request).bytes@ == old(request).bytes@,
        read is Failed ==> r is GiveUp,
        read matches OAuthRead::Data(data) ==> {
            let all = old(request).bytes@ + data@;
            let ended = exists|i: int|
                0 <= i && i + 4 <= all.len() && #[trigger] all[i] == 13 && all[i + 1] == 10 && all[i
                    + 2] == 13 && all[i + 3] == 10;
            &&& data@.len() == 0 ==> r is GiveUp
            &&& data@.len() > 0 && !ended ==> r is Continue && final(request).bytes@ == all
            &&& data@.len() > 0 && ended ==> (r is Request <==> valid_utf8(all)) && !(r is Continue)
            &&& r is Request ==> r->Request_0@ == decode_utf8(all)
        },
{
    if let OAuthRead::Data(data) = read {
        let all = old(request).bytes@ + data@;
        if exists|i: int|
            0 <= i && i + 4 <= all.len() && #[trigger] all[i] == 13 && all[i + 1] == 10 && all[i + 2]
                == 13 && all[i + 3] == 10 {
            let i = choose|i: int|
                0 <= i && i + 4 <= all.len() && #[trigger] all[i] == 13 && all[i + 1] == 10 && all[i
                    + 2] == 13 && all[i + 3] == 10;
            assert(head_ends_at(all, i));
        }
        if head_complete(all) {
            let i = choose|i: int| head_ends_at(all, i);
            assert(all[i] == 13 && all[i + 3] == 10);
        }
    }
}

/// Reading goes on until the listener is stopped, the time is up or the request has 16384
/// bytes.
pub proof fn law_limits_of_a_request(request: &OAuthRequest, stopped: bool, expired: bool, r: bool)
    requires
        call_ensures(OAuthRequest::wants_more, (request, stopped, expired), r),
    ensures
        stopped || expired || request.bytes@.len() >= 16384 ==> !r,
        !stopped && !expired && request.bytes@.len() < 16384 ==> r,
{
}

/// A request waits as long as it says, or a minute; what it sends is what it brings.
pub proof fn law_request_defaults(config: &HttpRequestConfig, own: HttpRequestConfig, r: u64, body: Vec<
    u8,
>)
    requires
        call_ensures(HttpRequestConfig::timeout, (config,), r),
        call_ensures(HttpRequestConfig::body, (own,), body),
    ensures
        config.timeout_ms matches Some(millis) ==> r == millis,
        config.timeout_ms is None ==> r == 60000,
        own.data matches Some(data) ==> body@ == data@,
        own.data is None ==> body@.len() == 0,
{
}

/// A download without a file name is refused; any other gets a hidden name beside the file,
/// which is never the name of the file itself. A request that took too long is told as
/// such, any other failure in the words of the system.
pub proof fn law_downloads(
    name: Option<String>,
    r: Result<String, String>,
    timeout: bool,
    message: &str,
    told: String,
)
    requires
        call_ensures(download_to_file, (name,), r),
        call_ensures(http_error, (timeout, message), told),
    ensures
        r is Ok <==> name is Some,
        r matches Ok(partial) ==> ("."@ + name->Some_0@ + ".download-"@).is_prefix_of(partial@)
            && partial@ != name->Some_0@,
        timeout ==> told@ == "timeout"@,
        !timeout ==> told@ == message@,
{
    if let Some(name) = name {
        let partial = (r->Ok_0)@;
        let number = choose|number: u64| partial == #[trigger] partial_name(name@, number);
        law_partial_name_differs(name@, number);
        assert(("."@ + name@ + ".download-"@).is_prefix_of(partial));
    }
}

} // verus!
