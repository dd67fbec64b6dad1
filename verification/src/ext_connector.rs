//! The connection to browser extensions: the listener, its sockets, and what is said
//! over them.

use std::collections::HashMap;

use vstd::prelude::*;

use crate::ext_frames;
use crate::ext_frames::{ChunkRead, Incoming};
use crate::ext_manifest::{
    KPXC_CHROME, KPXC_EDGE, KPXC_FIREFOX, KWC_CHROME, KWC_EDGE, KWC_FIREFOX, KWC_SAFARI,
};
use crate::json;
use crate::json::{Json, JsonValue};
use crate::platform::{ByteOrder, Platform};
use crate::text;

verus! {

broadcast use vstd::std_specs::hash::group_hash_axioms;

/// How many messages to an extension wait at most.
pub const OUTGOING_LIMIT: usize = 16;

// ---------------------------------------------------------------------------
// The socket
// ---------------------------------------------------------------------------

/// What the user interface says about the connection.
pub struct ConnectorConfig {
    pub apple_team_id: String,
}

/// Where the socket is.
#[derive(Clone, Copy, Debug, PartialEq, Eq, Structural)]
pub enum SocketBase {
    /// In the home directory.
    Home,
    /// In the directory for temporary files.
    Temp,
    /// Its path is complete.
    Nowhere,
}

/// The path of the socket, from its base.
pub struct SocketPath {
    pub base: SocketBase,
    pub path: String,
}

/// Whether a text can be the name of a team.
pub open spec fn is_team_id(id: Seq<char>) -> bool {
    &&& id.len() > 0
    &&& forall|i: int| 0 <= i < id.len() ==> text::is_alphanumeric(#[trigger] id[i])
}

/// The path of the socket. `user` is the number of the user, and `name` what the system
/// calls the user.
pub open spec fn path_for(
    platform: Platform,
    team: Seq<char>,
    user: u32,
    name: Result<Seq<char>, Seq<char>>,
) -> Result<(SocketBase, Seq<char>), Seq<char>> {
    match platform {
        Platform::MacOs => if is_team_id(team) {
            Ok(
                (
                    SocketBase::Home,
                    "Library/Group Containers/"@ + team + ".keeweb/conn.sock"@,
                ),
            )
        } else {
            Err("Invalid Apple team ID"@)
        },
        Platform::Linux => Ok(
            (SocketBase::Temp, "keeweb-connect-"@ + text::decimal(user as nat) + ".sock"@),
        ),
        Platform::Windows => match name {
            Ok(name) => {
                let path = "\\\\.\\pipe\\keeweb-connect-"@ + name;
                if text::utf16_len(path) > 256 {
                    Err("Browser extension pipe name is too long"@)
                } else {
                    Ok((SocketBase::Nowhere, path))
                }
            },
            Err(message) => Err(message),
        },
        Platform::Unix | Platform::Other => Err("Not supported on this platform"@),
    }
}

fn team_id(id: &str) -> (r: bool)
    ensures
        r == is_team_id(id@),
{
    let chars = text::chars_of(id);
    let mut i: usize = 0;
    while i < chars.len()
        invariant
            i <= chars@.len(),
            chars@ == id@,
            forall|k: int| 0 <= k < i ==> text::is_alphanumeric(#[trigger] chars@[k]),
        decreases chars@.len() - i,
    {
        let c = chars[i];
        if !(('a' <= c && c <= 'z') || ('A' <= c && c <= 'Z') || ('0' <= c && c <= '9')) {
            assert(!text::is_alphanumeric(id@[i as int]));
            return false;
        }
        i += 1;
    }
    chars.len() > 0
}

/// The path of the socket.
pub fn socket_path(
    platform: Platform,
    config: &ConnectorConfig,
    user: u32,
    name: Result<String, String>,
) -> (r: Result<SocketPath, String>)
    ensures
        ({
            let expected = path_for(
                platform,
                config.apple_team_id@,
                user,
                text::text_outcome(name),
            );
            match r {
                Ok(found) => expected == Ok::<(SocketBase, Seq<char>), Seq<char>>(
                    (found.base, found.path@),
                ),
                Err(e) => expected == Err::<(SocketBase, Seq<char>), Seq<char>>(e@),
            }
        }),
{
    match platform {
        Platform::MacOs => {
            let team = config.apple_team_id.as_str();
            if !team_id(team) {
                return Err("Invalid Apple team ID".to_owned());
            }
            Ok(
                SocketPath {
                    base: SocketBase::Home,
                    path: text::concat3("Library/Group Containers/", team, ".keeweb/conn.sock"),
                },
            )
        },
        Platform::Linux => Ok(
            SocketPath {
                base: SocketBase::Temp,
                path: text::concat3(
                    "keeweb-connect-",
                    text::decimal_text(user as u64).as_str(),
                    ".sock",
                ),
            },
        ),
        Platform::Windows => {
            let name = name?;
            let path = text::concat("\\\\.\\pipe\\keeweb-connect-", name.as_str());
            if !text::fits_utf16(path.as_str(), 256) {
                return Err("Browser extension pipe name is too long".to_owned());
            }
            Ok(SocketPath { base: SocketBase::Nowhere, path })
        },
        Platform::Unix | Platform::Other => Err("Not supported on this platform".to_owned()),
    }
}

/// The name of a team cannot lead out of the directory for sockets: the part of the
/// path that it makes up holds no separator.
pub proof fn law_team_stays_in_its_directory(team: Seq<char>)
    requires
        is_team_id(team),
    ensures
        !team.contains('/'),
        !team.contains('.'),
{
}

/// Whether the path of a socket is short enough for the system, by its bytes.
pub fn socket_name_fits(length: usize) -> (r: Result<(), String>)
    ensures
        text::outcome(r) == if length > 104 {
            Err("Browser extension socket name is too long"@)
        } else {
            Ok(())
        },
{
    if length > 104 {
        Err("Browser extension socket name is too long".to_owned())
    } else {
        Ok(())
    }
}

/// What is at the path of a socket.
pub enum SocketFile {
    Socket,
    OtherFile,
    Missing,
    Failed(String),
}

/// Whether there is a socket to remove. Nothing else is ever removed; `shown` is how the
/// path is written.
pub fn remove_socket(file: SocketFile, shown: &str) -> (r: Result<bool, String>)
    ensures
        text::outcome(r) == match file {
            SocketFile::Socket => Ok(true),
            SocketFile::OtherFile => Err("Refusing to remove a non-socket file: "@ + shown@),
            SocketFile::Missing => Ok(false),
            SocketFile::Failed(message) => Err(message@),
        },
{
    match file {
        SocketFile::Socket => Ok(true),
        SocketFile::OtherFile => Err(
            text::concat("Refusing to remove a non-socket file: ", shown),
        ),
        SocketFile::Missing => Ok(false),
        SocketFile::Failed(message) => Err(message),
    }
}

// ---------------------------------------------------------------------------
// The connections
// ---------------------------------------------------------------------------

/// The listener and its sockets. Of a socket it is known whether its extension takes
/// notifications, once it has introduced itself.
pub struct Connector {
    /// Somebody listens.
    pub listening: bool,
    /// There is a socket in the file system.
    pub bound: bool,
    /// How often listening has begun or ended.
    pub generation: u64,
    /// The number of the latest socket.
    pub next_socket_id: u32,
    pub sockets: HashMap<u32, Option<bool>>,
}

/// The model of the listener and its sockets.
#[verifier::ext_equal]
pub struct Hub {
    pub listening: bool,
    pub bound: bool,
    pub generation: nat,
    pub latest: nat,
    pub sockets: Map<u32, Option<bool>>,
}

impl View for Connector {
    type V = Hub;

    open spec fn view(&self) -> Hub {
        Hub {
            listening: self.listening,
            bound: self.bound,
            generation: self.generation as nat,
            latest: self.next_socket_id as nat,
            sockets: self.sockets@,
        }
    }
}

impl Hub {
    /// No socket has a number that is still to be given.
    pub open spec fn wf(self) -> bool {
        forall|id: u32| #[trigger] self.sockets.dom().contains(id) ==> id <= self.latest
    }

    /// Whether a socket has introduced itself.
    pub open spec fn introduced(self, id: u32) -> bool {
        self.sockets.dom().contains(id) && self.sockets[id] is Some
    }

    /// Nobody listens.
    pub open spec fn silent() -> Hub {
        Hub {
            listening: false,
            bound: false,
            generation: 0,
            latest: 0,
            sockets: Map::empty(),
        }
    }

    /// After a listener has started.
    pub open spec fn started(self) -> Hub {
        Hub { listening: true, bound: true, generation: self.generation + 1, ..self }
    }

    /// After the listener and all sockets have ended.
    pub open spec fn stopped(self) -> Hub {
        Hub {
            listening: false,
            bound: false,
            generation: self.generation + 1,
            sockets: Map::empty(),
            ..self
        }
    }

    /// After a listener has failed: if it is not this one any more, nothing changes.
    pub open spec fn failed(self, generation: u64) -> Hub {
        Hub { listening: self.listening && self.generation != generation, ..self }
    }

    /// Whether a socket from a listener is taken.
    pub open spec fn takes(self, generation: u64) -> bool {
        self.listening && self.generation == generation && self.latest < u32::MAX
    }

    /// After a socket has come from a listener.
    pub open spec fn joined(self, generation: u64) -> Hub {
        if self.takes(generation) {
            Hub {
                latest: self.latest + 1,
                sockets: self.sockets.insert((self.latest + 1) as u32, None),
                ..self
            }
        } else {
            self
        }
    }

    /// After a socket has introduced itself.
    pub open spec fn greeted(self, id: u32, notifications: bool) -> Hub {
        if self.sockets.dom().contains(id) {
            Hub { sockets: self.sockets.insert(id, Some(notifications)), ..self }
        } else {
            self
        }
    }

    /// After a socket has closed.
    pub open spec fn left(self, id: u32) -> Hub {
        Hub { sockets: self.sockets.remove(id), ..self }
    }
}

impl Connector {
    /// Nobody listens.
    pub fn new() -> (r: Connector)
        ensures
            r@ == Hub::silent(),
    {
        Connector {
            listening: false,
            bound: false,
            generation: 0,
            next_socket_id: 0,
            sockets: HashMap::new(),
        }
    }

    /// Takes note that a listener has started, and tells its generation.
    pub fn started(&mut self) -> (r: u64)
        requires
            old(self).generation < u64::MAX,
        ensures
            final(self)@ == old(self)@.started(),
            r == final(self).generation,
    {
        self.generation = self.generation + 1;
        self.listening = true;
        self.bound = true;
        self.generation
    }

    /// Ends the listener and all sockets, and tells whether there is a socket in the
    /// file system to remove.
    pub fn stop(&mut self) -> (r: bool)
        requires
            old(self).generation < u64::MAX,
        ensures
            final(self)@ == old(self)@.stopped(),
            r == old(self).bound,
    {
        let bound = self.bound;
        self.generation = self.generation + 1;
        self.listening = false;
        self.bound = false;
        self.sockets.clear();
        bound
    }

    /// Takes note that a listener has failed, unless another one has come since.
    pub fn listener_failed(&mut self, generation: u64)
        ensures
            final(self)@ == old(self)@.failed(generation),
    {
        if self.generation == generation {
            self.listening = false;
        }
    }

    /// Takes a socket from a listener, and gives it a number. One from a listener that
    /// has ended is not taken.
    pub fn connect_socket(&mut self, generation: u64) -> (r: Option<u32>)
        ensures
            final(self)@ == old(self)@.joined(generation),
            r == if old(self)@.takes(generation) {
                Some((old(self).next_socket_id + 1) as u32)
            } else {
                None
            },
    {
        if self.generation != generation || !self.listening {
            return None;
        }
        match self.next_socket_id.checked_add(1) {
            Some(id) => {
                self.next_socket_id = id;
                self.sockets.insert(id, None);
                Some(id)
            },
            None => None,
        }
    }

    /// Takes note that a socket has introduced itself.
    pub fn connected(&mut self, id: u32, notifications: bool) -> (r: Result<(), String>)
        ensures
            final(self)@ == old(self)@.greeted(id, notifications),
            text::outcome(r) == if old(self)@.sockets.dom().contains(id) {
                Ok(())
            } else {
                Err("Socket closed during handshake"@)
            },
    {
        if !self.sockets.contains_key(&id) {
            return Err("Socket closed during handshake".to_owned());
        }
        self.sockets.insert(id, Some(notifications));
        Ok(())
    }

    /// Forgets a socket that has closed.
    pub fn closed(&mut self, id: u32)
        ensures
            final(self)@ == old(self)@.left(id),
    {
        self.sockets.remove(&id);
    }

    /// Whether a result goes to a socket: only if it has introduced itself.
    pub fn browser_extension_connector_socket_result(&self, id: u32) -> (r: bool)
        ensures
            r == self@.introduced(id),
    {
        match self.sockets.get(&id) {
            Some(notifications) => notifications.is_some(),
            None => false,
        }
    }

    /// Whether a notification goes to a socket: only if its extension takes them.
    pub fn browser_extension_connector_socket_event(&self, id: u32) -> (r: bool)
        ensures
            r == (self@.introduced(id) && self@.sockets[id] == Some(true)),
    {
        match self.sockets.get(&id) {
            Some(Some(notifications)) => *notifications,
            _ => false,
        }
    }

    /// Whether there is such a socket to close.
    pub fn browser_extension_connector_close_socket(&self, id: u32) -> (r: bool)
        ensures
            r == self@.sockets.dom().contains(id),
    {
        self.sockets.contains_key(&id)
    }
}

/// At every time, the numbers of the sockets are numbers that have been given.
pub proof fn law_numbers_have_been_given(hub: Hub, generation: u64, id: u32, notifications: bool)
    requires
        hub.wf(),
    ensures
        Hub::silent().wf(),
        hub.started().wf(),
        hub.stopped().wf(),
        hub.failed(generation).wf(),
        hub.joined(generation).wf(),
        hub.greeted(id, notifications).wf(),
        hub.left(id).wf(),
{
    let after = hub.joined(generation);
    assert forall|other: u32| #[trigger] after.sockets.dom().contains(other) implies other
        <= after.latest by {
        assert(hub.takes(generation) && other == hub.latest + 1 || hub.sockets.dom().contains(
            other,
        ));
    }
    let greeted = hub.greeted(id, notifications);
    assert forall|other: u32| #[trigger] greeted.sockets.dom().contains(other) implies other
        <= greeted.latest by {
        assert(hub.sockets.dom().contains(other));
    }
    let left = hub.left(id);
    assert forall|other: u32| #[trigger] left.sockets.dom().contains(other) implies other
        <= left.latest by {
        assert(hub.sockets.dom().contains(other));
    }
}

/// A socket gets a number that no other socket has.
pub proof fn law_socket_numbers_are_new(hub: Hub, generation: u64)
    requires
        hub.wf(),
        hub.takes(generation),
    ensures
        !hub.sockets.dom().contains((hub.latest + 1) as u32),
        hub.joined(generation).sockets.dom().contains((hub.latest + 1) as u32),
{
}

/// Whatever a listener that has been stopped still has to offer is ignored, also when
/// another one has started.
pub proof fn law_stopped_listener_is_ignored(hub: Hub, generation: u64)
    requires
        generation <= hub.generation,
    ensures
        hub.stopped().joined(generation) == hub.stopped(),
        hub.stopped().started().joined(generation) == hub.stopped().started(),
        hub.stopped().started().failed(generation) == hub.stopped().started(),
{
}

/// Nothing goes to a socket before it has introduced itself, nor after everything was
/// stopped.
pub proof fn law_nothing_goes_to_strangers(hub: Hub, generation: u64, id: u32)
    requires
        hub.wf(),
    ensures
        hub.takes(generation) ==> !hub.joined(generation).introduced((hub.latest + 1) as u32),
        !hub.stopped().introduced(id),
        !hub.left(id).introduced(id),
{
}

/// The outcome of a notification: the latest failure, if there was one.
pub fn notification_outcome(failures: &Vec<String>) -> (r: Result<(), String>)
    ensures
        text::outcome(r) == if failures@.len() == 0 {
            Ok(())
        } else {
            Err(failures@.last()@)
        },
{
    if failures.len() == 0 {
        Ok(())
    } else {
        Err(failures[failures.len() - 1].as_str().to_owned())
    }
}

// ---------------------------------------------------------------------------
// Requests
// ---------------------------------------------------------------------------

/// Whether a value counts as true: not nothing, no, zero or an empty text. Zero has a
/// sign in the bits of a number.
pub open spec fn is_truthy(value: Json) -> bool {
    match value {
        Json::Null => false,
        Json::Bool(b) => b,
        Json::Number { bits, natural } => bits != Some(0u64) && bits != Some(
            0x8000_0000_0000_0000u64,
        ),
        Json::Text(s) => s.len() > 0,
        Json::Array | Json::Object => true,
    }
}

/// Whether a value counts as true.
pub fn truthy(value: &JsonValue) -> (r: bool)
    ensures
        r == is_truthy(value@),
{
    match value {
        JsonValue::Null => false,
        JsonValue::Bool(b) => *b,
        JsonValue::Number { bits, natural: _ } => match bits {
            Some(bits) => *bits != 0 && *bits != 0x8000_0000_0000_0000,
            None => true,
        },
        JsonValue::Text(s) => !s.as_str().is_empty(),
        JsonValue::Array | JsonValue::Object => true,
    }
}

/// Whether two names of clients are the same. Numbers are the same if they are equal as
/// floating-point numbers; lists and objects never are.
pub open spec fn same_client(a: Json, b: Json) -> bool {
    match (a, b) {
        (Json::Number { bits: x, natural: _ }, Json::Number { bits: y, natural: _ }) => x == y,
        (Json::Text(x), Json::Text(y)) => x == y,
        (Json::Bool(x), Json::Bool(y)) => x == y,
        (Json::Null, Json::Null) => true,
        _ => false,
    }
}

fn client_is(a: &JsonValue, b: &JsonValue) -> (r: bool)
    ensures
        r == same_client(a@, b@),
{
    match (a, b) {
        (JsonValue::Number { bits: x, natural: _ }, JsonValue::Number { bits: y, natural: _ }) => {
            match (x, y) {
                (Some(x), Some(y)) => *x == *y,
                (None, None) => true,
                _ => false,
            }
        },
        (JsonValue::Text(x), JsonValue::Text(y)) => text::same_text(x.as_str(), y.as_str()),
        (JsonValue::Bool(x), JsonValue::Bool(y)) => *x == *y,
        (JsonValue::Null, JsonValue::Null) => true,
        _ => false,
    }
}

/// The model of the client of a socket.
pub open spec fn client_of(client: Option<JsonValue>) -> Option<Json> {
    match client {
        Some(value) => Some(value@),
        None => None,
    }
}

/// What a request makes of the client of a socket: the first request with a name says
/// who it is, and the others must not say otherwise. A request without a name is only
/// to find out whether somebody is there.
pub open spec fn client_after(
    request: Json,
    id: Json,
    action: Json,
    client: Option<Json>,
) -> Result<Option<Json>, Seq<char>> {
    if !is_truthy(request) {
        Err("Empty browser extension request"@)
    } else if is_truthy(id) {
        match client {
            Some(previous) => if same_client(previous, id) {
                Ok(client)
            } else {
                Err("Changing client ID is not allowed"@)
            },
            None => Ok(Some(id)),
        }
    } else if action != Json::Text("ping"@) {
        Err("Empty client ID in browser extension request"@)
    } else {
        Ok(client)
    }
}

/// Checks a request by its value and two of its members, and takes note of the client.
pub fn check_request(
    request: &JsonValue,
    id: JsonValue,
    action: &JsonValue,
    client: &mut Option<JsonValue>,
) -> (r: Result<(), String>)
    ensures
        match client_after(request@, id@, action@, client_of(*old(client))) {
            Ok(after) => r is Ok && client_of(*final(client)) == after,
            Err(message) => text::outcome(r) == Err::<(), Seq<char>>(message) && *final(client)
                == *old(client),
        },
{
    if !truthy(request) {
        return Err("Empty browser extension request".to_owned());
    }
    if truthy(&id) {
        let known = match client {
            Some(previous) => Some(client_is(previous, &id)),
            None => None,
        };
        match known {
            Some(true) => {},
            Some(false) => return Err("Changing client ID is not allowed".to_owned()),
            None => {
                *client = Some(id);
            },
        }
        return Ok(());
    }
    let ping = match action {
        JsonValue::Text(name) => text::same_text(name.as_str(), "ping"),
        _ => false,
    };
    if ping {
        Ok(())
    } else {
        Err("Empty client ID in browser extension request".to_owned())
    }
}

/// Checks a request, and takes note of the client. One that is not JSON is refused.
pub fn validate_request(request: &Vec<u8>, client: &mut Option<JsonValue>) -> (r: Result<(), String>)
    ensures
        match json::json_document(request@) {
            Ok(document) => match client_after(
                document.root,
                document.member("clientID"@),
                document.member("action"@),
                client_of(*old(client)),
            ) {
                Ok(after) => r is Ok && client_of(*final(client)) == after,
                Err(message) => text::outcome(r) == Err::<(), Seq<char>>(message) && *final(client)
                    == *old(client),
            },
            Err(message) => text::outcome(r) == Err::<(), Seq<char>>(message) && *final(client)
                == *old(client),
        },
{
    proof {
        reveal_strlit("");
        reveal_strlit("clientID");
        reveal_strlit("action");
    }
    let root = json::json_value(request.as_slice(), "")?;
    let id = json::json_member(request.as_slice(), "clientID")?;
    let action = json::json_member(request.as_slice(), "action")?;
    check_request(&root, id, &action, client)
}

/// Once a client has said who it is, it stays that: whatever requests are accepted
/// later, they do not change it.
pub proof fn law_client_does_not_change(request: Json, id: Json, action: Json, client: Json)
    ensures
        client_after(request, id, action, Some(client)) matches Ok(after) ==> after == Some(client),
{
}

/// An object or a list as the name of a client is accepted once only.
pub proof fn law_structured_client_is_accepted_once(
    request: Json,
    id: Json,
    action: Json,
    client: Json,
)
    requires
        client is Array || client is Object,
        is_truthy(request),
        is_truthy(id),
    ensures
        client_after(request, id, action, Some(client)) is Err,
{
}

// ---------------------------------------------------------------------------
// The introduction
// ---------------------------------------------------------------------------

/// The extensions that the shell knows.
#[derive(Clone, Copy, Debug, PartialEq, Eq, Structural)]
pub enum Extension {
    KeeWebConnect,
    KeePassXcBrowser,
    Unknown,
}

impl Extension {
    /// How the extension is called.
    pub open spec fn name_text(self) -> Seq<char> {
        match self {
            Extension::KeeWebConnect => "KeeWeb Connect"@,
            Extension::KeePassXcBrowser => "KeePassXC-Browser"@,
            Extension::Unknown => "unknown"@,
        }
    }

    /// How the extension is called.
    pub fn name(self) -> (r: &'static str)
        ensures
            r@ == self.name_text(),
    {
        match self {
            Extension::KeeWebConnect => "KeeWeb Connect",
            Extension::KeePassXcBrowser => "KeePassXC-Browser",
            Extension::Unknown => "unknown",
        }
    }
}

/// The extension with an origin. `dev` are the origins of extensions that are being
/// developed.
pub open spec fn extension_at(origin: Seq<char>, dev: Seq<Seq<char>>) -> Extension {
    if origin == KWC_CHROME@ || origin == KWC_EDGE@ || origin == KWC_FIREFOX@ || origin
        == KWC_SAFARI@ {
        Extension::KeeWebConnect
    } else if origin == KPXC_CHROME@ || origin == KPXC_EDGE@ || origin == KPXC_FIREFOX@ {
        Extension::KeePassXcBrowser
    } else if dev.contains(origin) {
        Extension::KeeWebConnect
    } else {
        Extension::Unknown
    }
}

fn is_listed(list: &Vec<String>, item: &str) -> (r: bool)
    ensures
        r == text::texts(list@).contains(item@),
{
    let mut i: usize = 0;
    while i < list.len()
        invariant
            i <= list@.len(),
            forall|k: int| 0 <= k < i ==> text::texts(list@)[k] != item@,
        decreases list@.len() - i,
    {
        if text::same_text(list[i].as_str(), item) {
            assert(text::texts(list@)[i as int] == item@);
            return true;
        }
        i += 1;
    }
    false
}

/// The extension with an origin.
pub fn extension_of(origin: &str, dev: &Vec<String>) -> (r: Extension)
    ensures
        r == extension_at(origin@, text::texts(dev@)),
{
    if text::same_text(origin, KWC_CHROME) || text::same_text(origin, KWC_EDGE) || text::same_text(
        origin,
        KWC_FIREFOX,
    ) || text::same_text(origin, KWC_SAFARI) {
        Extension::KeeWebConnect
    } else if text::same_text(origin, KPXC_CHROME) || text::same_text(origin, KPXC_EDGE)
        || text::same_text(origin, KPXC_FIREFOX) {
        Extension::KeePassXcBrowser
    } else if is_listed(dev, origin) {
        Extension::KeeWebConnect
    } else {
        Extension::Unknown
    }
}

/// What an extension says when it connects.
#[derive(Clone, Copy, Debug, PartialEq, Eq, Structural)]
pub struct Handshake {
    pub extension: Extension,
    /// Safari connects by itself, and takes no notifications.
    pub safari: bool,
    /// The process to ask for the name of the browser, if there is one.
    pub parent: Option<u32>,
}

/// The number of a process, if a value is one.
pub open spec fn process_number(value: Json) -> Option<u32> {
    match value {
        Json::Number { bits, natural } => match natural {
            Some(number) if number <= u32::MAX => Some(number as u32),
            _ => None,
        },
        _ => None,
    }
}

/// What the values say that an extension sends when it connects: its origin, its
/// process and the process that has started it.
pub open spec fn introduction(origin: Json, pid: Json, ppid: Json, dev: Seq<Seq<char>>) -> Result<
    Handshake,
    Seq<char>,
> {
    let name = match origin {
        Json::Text(name) => name,
        _ => Seq::empty(),
    };
    let safari = name == KWC_SAFARI@;
    if !is_truthy(origin) || !is_truthy(pid) {
        Err("Browser extension handshake requires origin and pid"@)
    } else if !safari && !is_truthy(ppid) {
        Err("Browser extension handshake requires ppid"@)
    } else {
        Ok(
            Handshake {
                extension: extension_at(name, dev),
                safari,
                parent: if safari {
                    None
                } else {
                    process_number(ppid)
                },
            },
        )
    }
}

/// What the values say that an extension sends when it connects.
pub fn handshake(origin: &JsonValue, pid: &JsonValue, ppid: &JsonValue, dev: &Vec<String>) -> (r:
    Result<Handshake, String>)
    ensures
        text::outcome(r) == introduction(origin@, pid@, ppid@, text::texts(dev@)),
{
    if !truthy(origin) || !truthy(pid) {
        return Err("Browser extension handshake requires origin and pid".to_owned());
    }
    let name = match origin {
        JsonValue::Text(name) => name.as_str(),
        _ => "",
    };
    proof {
        reveal_strlit("");
        assert(""@ =~= Seq::empty());
    }
    let safari = text::same_text(name, KWC_SAFARI);
    if !safari && !truthy(ppid) {
        return Err("Browser extension handshake requires ppid".to_owned());
    }
    let parent = match ppid {
        JsonValue::Number { bits: _, natural } => match natural {
            Some(number) => if *number <= u32::MAX as u64 && !safari {
                Some(*number as u32)
            } else {
                None
            },
            None => None,
        },
        _ => None,
    };
    Ok(Handshake { extension: extension_of(name, dev), safari, parent })
}

/// What an extension says when it connects, by its first message.
pub fn connection_info(message: &Vec<u8>, dev: &Vec<String>) -> (r: Result<Handshake, String>)
    ensures
        text::outcome(r) == match json::json_document(message@) {
            Ok(document) => introduction(
                document.member("origin"@),
                document.member("pid"@),
                document.member("ppid"@),
                text::texts(dev@),
            ),
            Err(message) => Err(message),
        },
{
    proof {
        reveal_strlit("origin");
        reveal_strlit("pid");
        reveal_strlit("ppid");
    }
    let origin = json::json_member(message.as_slice(), "origin")?;
    let pid = json::json_member(message.as_slice(), "pid")?;
    let ppid = json::json_member(message.as_slice(), "ppid")?;
    handshake(&origin, &pid, &ppid, dev)
}

/// What the user interface is told of a connection, but for the process, which it is
/// told as the extension has sent it.
pub struct ConnectionInfo {
    pub connection_id: u32,
    pub app_name: String,
    pub extension_name: &'static str,
    pub supports_notifications: bool,
}

/// What the user interface is told of a connection. `browser` is how the browser is
/// called.
pub fn introduce(id: u32, handshake: &Handshake, browser: String) -> (r: ConnectionInfo)
    ensures
        r.connection_id == id,
        r.app_name@ == if handshake.safari {
            "Safari"@
        } else {
            browser@
        },
        r.extension_name@ == handshake.extension.name_text(),
        r.supports_notifications == !handshake.safari,
{
    ConnectionInfo {
        connection_id: id,
        app_name: if handshake.safari {
            "Safari".to_owned()
        } else {
            browser
        },
        extension_name: handshake.extension.name(),
        supports_notifications: !handshake.safari,
    }
}

// ---------------------------------------------------------------------------
// One connection
// ---------------------------------------------------------------------------

/// What a connection waits for.
#[derive(Clone, Copy, Debug, PartialEq, Eq, Structural)]
pub enum Phase {
    /// The first message.
    Introduction,
    /// A request.
    Request,
    /// The result of a request.
    Result,
}

/// What to do with a connection.
pub enum SessionStep {
    /// Read on.
    Read,
    /// Read on, until a result is released.
    ReadOrResult,
    /// Take the first message, and tell the user interface.
    Introduction(Vec<u8>),
    /// Hand a request to the user interface.
    Request(Vec<u8>),
}

/// A connection: what was read and not used yet, who the client is, and whether a
/// result has been released that nobody waited for. Requests go to the user interface
/// one at a time: the next one waits for the result of the one before.
pub struct Session {
    pub phase: Phase,
    pub pending: Vec<u8>,
    pub client: Option<JsonValue>,
    pub released: bool,
}

/// What lets requests through, one at a time: what a connection waits for, and whether a
/// result has been released that nobody waited for.
pub struct Gate {
    pub phase: Phase,
    pub released: bool,
}

/// What happens to a connection.
#[derive(Clone, Copy, Debug, PartialEq, Eq, Structural)]
pub enum Turn {
    /// A result has been sent.
    Released,
    /// It goes on waiting for a result.
    Waited,
    /// It has to read on for a message.
    Read,
    /// It has taken the first message.
    Introduced,
    /// It has handed a request to the user interface.
    Handed,
}

impl Gate {
    /// Whether something can happen to a connection.
    pub open spec fn allows(self, turn: Turn) -> bool {
        match turn {
            Turn::Released => true,
            Turn::Waited => self.phase is Result && !self.released,
            Turn::Read => !(self.phase is Result) || self.released,
            Turn::Introduced => self.phase is Introduction,
            Turn::Handed => self.phase is Request || (self.phase is Result && self.released),
        }
    }

    /// The connection after something has happened to it.
    pub open spec fn after(self, turn: Turn) -> Gate {
        let kept = self.released && !(self.phase is Result);
        match turn {
            Turn::Released => Gate { released: true, ..self },
            Turn::Waited => self,
            Turn::Read => Gate {
                phase: if self.phase is Result {
                    Phase::Request
                } else {
                    self.phase
                },
                released: kept,
            },
            Turn::Introduced => Gate { phase: Phase::Request, released: kept },
            Turn::Handed => Gate { phase: Phase::Result, released: kept },
        }
    }
}

/// The connection after some turns.
pub open spec fn gate_after(gate: Gate, turns: Seq<Turn>) -> Gate
    decreases turns.len(),
{
    if turns.len() == 0 {
        gate
    } else {
        gate_after(gate, turns.drop_last()).after(turns.last())
    }
}

/// Whether some turns can happen one after another.
pub open spec fn can_happen(gate: Gate, turns: Seq<Turn>) -> bool
    decreases turns.len(),
{
    turns.len() > 0 ==> can_happen(gate, turns.drop_last()) && gate_after(
        gate,
        turns.drop_last(),
    ).allows(turns.last())
}

/// How often something happens among some turns.
pub open spec fn times(turns: Seq<Turn>, turn: Turn) -> nat
    decreases turns.len(),
{
    if turns.len() == 0 {
        0
    } else {
        times(turns.drop_last(), turn) + if turns.last() == turn {
            1nat
        } else {
            0nat
        }
    }
}

/// How many more requests can be handed on before a result is sent.
pub open spec fn slack(gate: Gate) -> nat {
    (if gate.released {
        1nat
    } else {
        0nat
    }) + (if gate.phase is Result {
        0nat
    } else {
        1nat
    })
}

proof fn lemma_slack(gate: Gate, turns: Seq<Turn>)
    requires
        can_happen(gate, turns),
    ensures
        times(turns, Turn::Handed) + slack(gate_after(gate, turns)) <= times(turns, Turn::Released)
            + slack(gate),
    decreases turns.len(),
{
    if turns.len() > 0 {
        lemma_slack(gate, turns.drop_last());
    }
}

/// Only a result lets the next request through: at every time, at most one request more
/// than results have been sent is with the user interface.
pub proof fn law_requests_wait_for_results(turns: Seq<Turn>)
    requires
        can_happen(Gate { phase: Phase::Introduction, released: false }, turns),
    ensures
        times(turns, Turn::Handed) <= times(turns, Turn::Released) + 1,
{
    lemma_slack(Gate { phase: Phase::Introduction, released: false }, turns);
}

impl Session {
    /// What lets requests through.
    pub open spec fn gate(self) -> Gate {
        Gate { phase: self.phase, released: self.released }
    }

    /// A connection that has just been made.
    pub fn new() -> (r: Session)
        ensures
            r.phase is Introduction,
            r.pending@.len() == 0,
            r.client is None,
            !r.released,
    {
        Session { phase: Phase::Introduction, pending: Vec::new(), client: None, released: false }
    }

    /// Takes note that a result has been sent.
    pub fn release(&mut self)
        ensures
            final(self).gate() == old(self).gate().after(Turn::Released),
            final(self).pending == old(self).pending,
            final(self).client == old(self).client,
    {
        self.released = true;
    }

    /// Takes what was read.
    pub fn chunk(&mut self, read: ChunkRead) -> (r: Result<(), String>)
        ensures
            final(self).phase == old(self).phase,
            final(self).client == old(self).client,
            final(self).released == old(self).released,
            text::outcome(r) == match read {
                ChunkRead::Failed(message) => Err(message@),
                ChunkRead::Data(data) => if data@.len() == 0 {
                    Err("Connection closed"@)
                } else if data@.len() > ext_frames::MAX_INCOMING_DATA {
                    Err("Incoming browser extension chunk exceeds 10000 bytes"@)
                } else {
                    Ok(())
                },
            },
            final(self).pending@ == if r is Ok {
                old(self).pending@ + read->Data_0@
            } else {
                old(self).pending@
            },
    {
        ext_frames::read_chunk(&mut self.pending, read)
    }

    /// What to do next. A request is checked before it is handed on; after that, the
    /// connection waits for the result.
    pub fn read_requests(&mut self, order: ByteOrder) -> (r: Result<SessionStep, String>)
        ensures
            if old(self).phase is Result && !old(self).released {
                r matches Ok(SessionStep::ReadOrResult) && *final(self) == *old(self)
            } else {
                match ext_frames::incoming(old(self).pending@, order) {
                    Incoming::Incomplete => {
                        &&& r matches Ok(SessionStep::Read)
                        &&& final(self).pending@ == old(self).pending@
                        &&& final(self).client == old(self).client
                        &&& final(self).phase == if old(self).phase is Result {
                            Phase::Request
                        } else {
                            old(self).phase
                        }
                    },
                    Incoming::TooLong => text::outcome(r) == Err::<SessionStep, Seq<char>>(
                        "Incoming browser extension frame exceeds 10000 bytes"@,
                    ),
                    Incoming::Message(message) => {
                        &&& final(self).pending@ == old(self).pending@.skip(
                            message.len() as int + 4,
                        )
                        &&& if old(self).phase is Introduction {
                            &&& r matches Ok(SessionStep::Introduction(bytes)) && bytes@ == message
                            &&& final(self).phase is Request
                            &&& final(self).client == old(self).client
                        } else {
                            match json::json_document(message) {
                                Ok(document) => match client_after(
                                    document.root,
                                    document.member("clientID"@),
                                    document.member("action"@),
                                    client_of(old(self).client),
                                ) {
                                    Ok(client) => {
                                        &&& r matches Ok(SessionStep::Request(bytes)) && bytes@
                                            == message
                                        &&& final(self).phase is Result
                                        &&& client_of(final(self).client) == client
                                    },
                                    Err(e) => text::outcome(r) == Err::<SessionStep, Seq<char>>(e),
                                },
                                Err(e) => text::outcome(r) == Err::<SessionStep, Seq<char>>(e),
                            }
                        }
                    },
                }
            },
            final(self).released == (old(self).released && !(old(self).phase is Result)),
            r matches Ok(step) ==> {
                let turn = match step {
                    SessionStep::Read => Turn::Read,
                    SessionStep::ReadOrResult => Turn::Waited,
                    SessionStep::Introduction(_) => Turn::Introduced,
                    SessionStep::Request(_) => Turn::Handed,
                };
                old(self).gate().allows(turn) && final(self).gate() == old(self).gate().after(turn)
            },
    {
        if self.phase == Phase::Result {
            if !self.released {
                return Ok(SessionStep::ReadOrResult);
            }
            self.released = false;
            self.phase = Phase::Request;
        }
        let message = match ext_frames::read_message(&mut self.pending, order)? {
            Some(message) => message,
            None => return Ok(SessionStep::Read),
        };
        if self.phase == Phase::Introduction {
            self.phase = Phase::Request;
            return Ok(SessionStep::Introduction(message));
        }
        validate_request(&message, &mut self.client)?;
        self.phase = Phase::Result;
        Ok(SessionStep::Request(message))
    }
}

// ---------------------------------------------------------------------------
// What the operations do
// ---------------------------------------------------------------------------

/// The socket stands in the directory of the team on macOS, in the temporary directory under
/// the number of the user on Linux, and is a pipe on Windows, whose name must not be too
/// long. Other platforms have none.
pub proof fn law_socket_path(
    platform: Platform,
    config: &ConnectorConfig,
    user: u32,
    name: Result<String, String>,
    r: Result<SocketPath, String>,
)
    requires
        call_ensures(socket_path, (platform, config, user, name), r),
    ensures
        platform is MacOs ==> {
            let team = config.apple_team_id@;
            let valid = team.len() > 0 && forall|i: int|
                0 <= i < team.len() ==> {
                    let c = #[trigger] team[i];
                    'a' <= c <= 'z' || 'A' <= c <= 'Z' || '0' <= c <= '9'
                };
            &&& r is Ok <==> valid
            &&& r is Ok ==> (r->Ok_0).base is Home && (r->Ok_0).path@
                == "Library/Group Containers/"@ + team + ".keeweb/conn.sock"@
            &&& r is Err ==> (r->Err_0)@ == "Invalid Apple team ID"@
        },
        platform is Linux ==> r is Ok && (r->Ok_0).base is Temp && (r->Ok_0).path@
            == "keeweb-connect-"@ + text::decimal(user as nat) + ".sock"@,
        platform is Windows ==> {
            &&& name is Err ==> r is Err && (r->Err_0)@ == (name->Err_0)@
            &&& name is Ok ==> (r is Ok <==> text::utf16_len(
                "\\\\.\\pipe\\keeweb-connect-"@ + (name->Ok_0)@,
            ) <= 256)
            &&& r is Ok ==> (r->Ok_0).base is Nowhere && (r->Ok_0).path@
                == "\\\\.\\pipe\\keeweb-connect-"@ + (name->Ok_0)@
            &&& name is Ok && r is Err ==> (r->Err_0)@
                == "Browser extension pipe name is too long"@
        },
        platform is Unix || platform is Other ==> r is Err && (r->Err_0)@
            == "Not supported on this platform"@,
{
    let team = config.apple_team_id@;
    if is_team_id(team) {
        assert forall|i: int| 0 <= i < team.len() implies {
            let c = #[trigger] team[i];
            'a' <= c <= 'z' || 'A' <= c <= 'Z' || '0' <= c <= '9'
        } by {
            assert(text::is_alphanumeric(team[i]));
        }
    }
}

/// Only a socket is removed, and only one that is there; another file in its place is left
/// alone.
pub proof fn law_only_sockets_are_removed(file: SocketFile, shown: &str, r: Result<bool, String>)
    requires
        call_ensures(remove_socket, (file, shown), r),
    ensures
        r matches Ok(remove) ==> (remove <==> file is Socket) && (!remove <==> file is Missing),
        file is OtherFile ==> r is Err && (r->Err_0)@ == "Refusing to remove a non-socket file: "@
            + shown@,
        file matches SocketFile::Failed(message) ==> r is Err && (r->Err_0)@ == message@,
{
}

/// What each operation on the hub leaves alone: no other socket is touched by one that
/// joins, introduces itself or leaves; starting keeps all sockets, and stopping drops all.
pub proof fn law_other_sockets_are_kept(
    hub: Hub,
    generation: u64,
    id: u32,
    notifications: bool,
    other: u32,
)
    requires
        hub.wf(),
        other != id,
    ensures
        hub.sockets.dom().contains(other) ==> {
            &&& hub.joined(generation).sockets.dom().contains(other)
            &&& hub.joined(generation).sockets[other] == hub.sockets[other]
        },
        hub.greeted(id, notifications).sockets.dom().contains(other) == hub.sockets.dom().contains(
            other,
        ),
        hub.greeted(id, notifications).sockets[other] == hub.sockets[other]
            || !hub.sockets.dom().contains(other),
        hub.left(id).sockets.dom().contains(other) == hub.sockets.dom().contains(other),
        hub.sockets.dom().contains(other) ==> hub.left(id).sockets[other] == hub.sockets[other],
        !hub.left(id).sockets.dom().contains(id),
        hub.started().sockets == hub.sockets,
        hub.failed(generation).sockets == hub.sockets,
        forall|any: u32| !(#[trigger] hub.stopped().sockets.dom().contains(any)),
{
}

/// A socket joins the listener of its time only, gets the next number, and is a stranger
/// until it has introduced itself; then what it wants to be told is on record.
pub proof fn law_joining_and_greeting(hub: Hub, generation: u64, notifications: bool)
    requires
        hub.wf(),
    ensures
        ({
            let next = (hub.latest + 1) as u32;
            let joined = hub.joined(generation);
            let takes = hub.listening && hub.generation == generation && hub.latest < u32::MAX;
            &&& takes ==> joined.latest == hub.latest + 1 && joined.sockets.dom().contains(next)
                && joined.sockets[next] is None && !joined.introduced(next)
            &&& takes ==> joined.greeted(next, notifications).introduced(next) && joined.greeted(
                next,
                notifications,
            ).sockets[next] == Some(notifications)
            &&& !takes ==> joined == hub
            &&& joined.listening == hub.listening && joined.generation == hub.generation
                && joined.bound == hub.bound
        }),
        forall|id: u32|
            !hub.sockets.dom().contains(id) ==> #[trigger] hub.greeted(id, notifications) == hub,
{
}

/// Each start and each stop begins a new time, so that what belongs to an earlier one is
/// told apart; a failure ends the listening of its own time only.
pub proof fn law_times(hub: Hub, generation: u64)
    ensures
        hub.started().generation > hub.generation,
        hub.started().listening && hub.started().bound,
        hub.stopped().generation > hub.generation,
        !hub.stopped().listening && !hub.stopped().bound,
        hub.started().latest == hub.latest && hub.stopped().latest == hub.latest,
        hub.generation == generation ==> !hub.failed(generation).listening,
        hub.generation != generation ==> hub.failed(generation) == hub,
        hub.failed(generation).bound == hub.bound && hub.failed(generation).generation
            == hub.generation && hub.failed(generation).latest == hub.latest,
{
}

/// A result goes to a socket that has introduced itself, an event only if the socket wants
/// events, and any connected socket can be closed.
pub proof fn law_who_is_told(connector: &Connector, id: u32, result: bool, event: bool, close: bool)
    requires
        call_ensures(Connector::browser_extension_connector_socket_result, (connector, id), result),
        call_ensures(Connector::browser_extension_connector_socket_event, (connector, id), event),
        call_ensures(Connector::browser_extension_connector_close_socket, (connector, id), close),
    ensures
        event ==> result,
        result ==> close,
        close <==> connector.sockets@.dom().contains(id),
        result <==> close && connector.sockets@[id] is Some,
        event <==> close && connector.sockets@[id] == Some(true),
{
}

/// Of several failures the last one is reported.
pub proof fn law_last_failure(failures: &Vec<String>, r: Result<(), String>)
    requires
        call_ensures(notification_outcome, (failures,), r),
    ensures
        r is Ok <==> failures@.len() == 0,
        r matches Err(e) ==> e@ == failures@[failures@.len() - 1]@,
{
}

/// What counts as given: neither nothing nor false, no empty text, and no zero of either
/// sign.
pub proof fn law_truthy(value: &JsonValue, r: bool)
    requires
        call_ensures(truthy, (value,), r),
    ensures
        *value is Null ==> !r,
        *value matches JsonValue::Bool(b) ==> r == b,
        *value matches JsonValue::Number { bits, natural } ==> (r <==> bits != Some(0u64) && bits
            != Some(0x8000_0000_0000_0000u64)),
        *value matches JsonValue::Text(s) ==> (r <==> s@.len() > 0),
        *value is Array || *value is Object ==> r,
{
}

/// A session takes the identifier of its first request that has one; later requests have
/// to have the same. Only a ping may come without.
pub proof fn law_clients(request: Json, id: Json, action: Json, client: Option<Json>)
    ensures
        ({
            let after = client_after(request, id, action, client);
            &&& !is_truthy(request) ==> after == Err::<Option<Json>, Seq<char>>(
                "Empty browser extension request"@,
            )
            &&& is_truthy(request) && is_truthy(id) && client is None ==> after == Ok::<
                Option<Json>,
                Seq<char>,
            >(Some(id))
            &&& is_truthy(request) && is_truthy(id) && client == Some(id) && (id is Text || id is Bool
                || id is Number) ==> after == Ok::<Option<Json>, Seq<char>>(client)
            &&& is_truthy(request) && is_truthy(id) && client is Some && id is Text && client
                != Some(id) ==> after == Err::<Option<Json>, Seq<char>>(
                "Changing client ID is not allowed"@,
            )
            &&& is_truthy(request) && !is_truthy(id) && action == Json::Text("ping"@) ==> after
                == Ok::<Option<Json>, Seq<char>>(client)
            &&& is_truthy(request) && !is_truthy(id) && action != Json::Text("ping"@) ==> after
                == Err::<Option<Json>, Seq<char>>(
                "Empty client ID in browser extension request"@,
            )
        }),
{
}

/// Two numbers are the same client exactly if they are the same number; values of
/// different kinds never are, and neither are arrays or objects.
pub proof fn law_same_client(a: Json, b: Json)
    ensures
        same_client(a, b) == same_client(b, a),
        a is Number && b is Number ==> (same_client(a, b) <==> a->Number_bits == b->Number_bits),
        a is Text && b is Text ==> (same_client(a, b) <==> a->Text_0 == b->Text_0),
        a is Bool && b is Bool ==> (same_client(a, b) <==> a->Bool_0 == b->Bool_0),
        a is Null && b is Null ==> same_client(a, b),
        a is Array || a is Object ==> !same_client(a, b),
        a is Text && !(b is Text) || a is Number && !(b is Number) || a is Bool && !(b is Bool)
            || a is Null && !(b is Null) ==> !same_client(a, b),
{
}

/// An extension is known by its origin. Origins under development belong to one of the two
/// extensions, unless they are those of the other.
pub proof fn law_extensions(origin: &str, dev: &Vec<String>, r: Extension, name: &'static str)
    requires
        call_ensures(extension_of, (origin, dev), r),
        call_ensures(Extension::name, (r,), name),
    ensures
        ({
            let kwc = origin@ == "chrome-extension://pikpfmjfkekaeinceagbebpfkmkdlcjk/"@ || origin@
                == "chrome-extension://nmggpehkjmeaeocmaijenpejbepckinm/"@ || origin@
                == "keeweb-connect-addon@keeweb.info"@ || origin@ == "safari-keeweb-connect"@;
            let kpxc = origin@ == "chrome-extension://oboonakemofpalcgghocfoadofidjkkk/"@ || origin@
                == "chrome-extension://pdffhmdngciaglkoonimfcmckehcpafo/"@ || origin@
                == "keepassxc-browser@keepassxc.org"@;
            let listed = exists|i: int| 0 <= i < dev@.len() && (#[trigger] dev@[i])@ == origin@;
            &&& kwc ==> r is KeeWebConnect
            &&& kpxc && !kwc ==> r is KeePassXcBrowser
            &&& !kwc && !kpxc && listed ==> r is KeeWebConnect
            &&& !kwc && !kpxc && !listed ==> r is Unknown
        }),
        r is KeeWebConnect ==> name@ == "KeeWeb Connect"@,
        r is KeePassXcBrowser ==> name@ == "KeePassXC-Browser"@,
        r is Unknown ==> name@ == "unknown"@,
{
    let all = text::texts(dev@);
    if exists|i: int| 0 <= i < dev@.len() && (#[trigger] dev@[i])@ == origin@ {
        let i = choose|i: int| 0 <= i < dev@.len() && (#[trigger] dev@[i])@ == origin@;
        assert(all[i] == origin@);
    }
    if all.contains(origin@) {
        let i = choose|i: int| 0 <= i < all.len() && all[i] == origin@;
        assert(dev@[i]@ == origin@);
    }
}

/// An introduction needs an origin and a process, and but for Safari the process that
/// started it, which is the one whose name is asked for.
pub proof fn law_introduction(
    origin: &JsonValue,
    pid: &JsonValue,
    ppid: &JsonValue,
    dev: &Vec<String>,
    given: (bool, bool, bool),
    name: &str,
    extension: Extension,
    r: Result<Handshake, String>,
)
    requires
        call_ensures(truthy, (origin,), given.0),
        call_ensures(truthy, (pid,), given.1),
        call_ensures(truthy, (ppid,), given.2),
        call_ensures(extension_of, (name, dev), extension),
        *origin is Text ==> name@ == (origin->Text_0)@,
        call_ensures(handshake, (origin, pid, ppid, dev), r),
    ensures
        ({
            let safari = *origin is Text && (origin->Text_0)@ == "safari-keeweb-connect"@;
            &&& r is Ok <==> given.0 && given.1 && (safari || given.2)
            &&& !(given.0 && given.1) ==> (r->Err_0)@
                == "Browser extension handshake requires origin and pid"@
            &&& given.0 && given.1 && r is Err ==> (r->Err_0)@
                == "Browser extension handshake requires ppid"@
            &&& r is Ok ==> (r->Ok_0).safari == safari
            &&& r is Ok && *origin is Text ==> (r->Ok_0).extension == extension
            &&& r is Ok && safari ==> (r->Ok_0).parent is None
            &&& r is Ok && !safari ==> match (r->Ok_0).parent {
                Some(parent) => *ppid is Number && ppid->Number_natural == Some(parent as u64),
                None => !(*ppid is Number) || ppid->Number_natural is None
                    || ppid->Number_natural->Some_0 > u32::MAX,
            }
        }),
{
    reveal_strlit("safari-keeweb-connect");
    assert("safari-keeweb-connect"@.len() > 0);
}

/// The user interface is told the connection by its number, the browser by its name, and
/// that Safari takes no notifications.
pub proof fn law_connection_info(id: u32, handshake: &Handshake, browser: String, r: ConnectionInfo)
    requires
        call_ensures(introduce, (id, handshake, browser), r),
    ensures
        r.connection_id == id,
        handshake.safari ==> r.app_name@ == "Safari"@ && !r.supports_notifications,
        !handshake.safari ==> r.app_name@ == browser@ && r.supports_notifications,
        handshake.extension is KeeWebConnect ==> r.extension_name@ == "KeeWeb Connect"@,
        handshake.extension is KeePassXcBrowser ==> r.extension_name@ == "KeePassXC-Browser"@,
        handshake.extension is Unknown ==> r.extension_name@ == "unknown"@,
{
}

/// No request is handed on before the introduction, and none while the result of the last
/// one is awaited.
pub proof fn law_turns(gate: Gate)
    ensures
        gate.allows(Turn::Introduced) <==> gate.phase is Introduction,
        gate.phase is Introduction ==> !gate.allows(Turn::Handed),
        gate.phase is Result && !gate.released ==> !gate.allows(Turn::Handed) && !gate.allows(
            Turn::Read,
        ) && gate.allows(Turn::Waited),
        gate.allows(Turn::Handed) ==> gate.after(Turn::Handed).phase is Result,
        gate.after(Turn::Introduced).phase is Request,
        gate.after(Turn::Released).released && gate.after(Turn::Released).phase == gate.phase,
        gate.phase is Result ==> !gate.after(Turn::Handed).released,
{
}

/// The connector and its sockets in terms of what callers see: a socket gets the next
/// number while its listener listens, is known until it is closed or all is stopped, and is
/// told things once it has introduced itself.
pub proof fn law_life_of_a_socket(
    joining: &mut Connector,
    greeting: &mut Connector,
    closing: &mut Connector,
    stopping: &mut Connector,
    generation: u64,
    id: u32,
    notifications: bool,
    joined: Option<u32>,
    greeted: Result<(), String>,
    bound: bool,
)
    requires
        old(stopping).generation < u64::MAX,
        call_ensures(Connector::connect_socket, (joining, generation), joined),
        call_ensures(Connector::connected, (greeting, id, notifications), greeted),
        call_ensures(Connector::closed, (closing, id), ()),
        call_ensures(Connector::stop, (stopping,), bound),
    ensures
        joined is Some <==> old(joining).listening && old(joining).generation == generation && old(
            joining).next_socket_id < u32::MAX,
        joined matches Some(next) ==> next == old(joining).next_socket_id + 1 && final(
            joining)@.sockets.dom().contains(next) && final(joining)@.sockets[next] is None,
        joined is None ==> final(joining)@ == old(joining)@,
        greeted is Ok <==> old(greeting)@.sockets.dom().contains(id),
        greeted is Ok ==> final(greeting)@.sockets[id] == Some(notifications),
        greeted is Err ==> final(greeting)@ == old(greeting)@,
        !final(closing)@.sockets.dom().contains(id),
        !final(stopping)@.sockets.dom().contains(id),
        bound == old(stopping).bound,
        !final(stopping).listening && !final(stopping).bound,
        final(stopping).generation > old(stopping).generation,
{
    if joined is None {
        assert(final(joining)@ == old(joining)@.joined(generation));
    }
}

/// What a session does next: it waits for the result of its last request, or reads on, or
/// hands on what came. What is handed on stands at the front of what was read, and the rest
/// is kept; before the introduction nothing else is handed on, and after it nothing but
/// requests.
pub proof fn law_session(session: &mut Session, order: ByteOrder, r: Result<SessionStep, String>)
    requires
        call_ensures(Session::read_requests, (session, order), r),
    ensures
        ({
            let waits = old(session).phase is Result && !old(session).released;
            let pending = old(session).pending@;
            &&& waits <==> r is Ok && r->Ok_0 is ReadOrResult
            &&& waits ==> final(session).pending@ == pending
            &&& r matches Ok(SessionStep::Introduction(bytes)) ==> {
                &&& old(session).phase is Introduction
                &&& final(session).phase is Request
                &&& ext_frames::incoming(pending, order) == Incoming::Message(bytes@)
                &&& final(session).pending@ == pending.skip(bytes@.len() as int + 4)
            }
            &&& r matches Ok(SessionStep::Request(bytes)) ==> {
                &&& !(old(session).phase is Introduction)
                &&& final(session).phase is Result
                &&& ext_frames::incoming(pending, order) == Incoming::Message(bytes@)
                &&& final(session).pending@ == pending.skip(bytes@.len() as int + 4)
            }
            &&& r matches Ok(SessionStep::Read) ==> final(session).pending@ == pending
                && ext_frames::incoming(pending, order) is Incomplete
            &&& !waits && ext_frames::incoming(pending, order) is TooLong ==> r is Err
        }),
{
}

/// Messages are looked at through their members: an introduction by its origin and its
/// processes, a request by its client and its action. One that is no document is refused
/// and changes nothing.
pub proof fn law_members_of_messages(
    message: &Vec<u8>,
    dev: &Vec<String>,
    origin: &JsonValue,
    pid: &JsonValue,
    ppid: &JsonValue,
    by_values: Result<Handshake, String>,
    r: Result<Handshake, String>,
    client: &mut Option<JsonValue>,
    q: Result<(), String>,
)
    requires
        call_ensures(connection_info, (message, dev), r),
        call_ensures(handshake, (origin, pid, ppid, dev), by_values),
        call_ensures(validate_request, (message, client), q),
    ensures
        json::json_document(message@) matches Ok(document) ==> {
            &&& document.member("origin"@) == origin@ && document.member("pid"@) == pid@
                && document.member("ppid"@) == ppid@ ==> text::outcome(r) == text::outcome(by_values)
            &&& q is Ok ==> is_truthy(document.root)
            &&& q is Ok && is_truthy(document.member("clientID"@)) && *old(client) is None ==> client_of(
                *final(client)) == Some(document.member("clientID"@))
            &&& q is Ok && !is_truthy(document.member("clientID"@)) ==> document.member("action"@)
                == Json::Text("ping"@) && client_of(*final(client)) == client_of(*old(client))
        },
        json::json_document(message@) matches Err(complaint) ==> {
            &&& r is Err && (r->Err_0)@ == complaint
            &&& q is Err && (q->Err_0)@ == complaint
        },
        q is Err ==> *final(client) == *old(client),
{
}

/// The name of a socket has room for 104 bytes.
pub proof fn law_socket_names(length: usize, r: Result<(), String>)
    requires
        call_ensures(socket_name_fits, (length,), r),
    ensures
        r is Ok <==> length <= 104,
{
}

/// Only the release of a session changes that it was released, and only a chunk that is
/// taken changes what is pending.
pub proof fn law_session_parts(
    released: &mut Session,
    fed: &mut Session,
    read: ChunkRead,
    r: Result<(), String>,
)
    requires
        call_ensures(Session::release, (released,), ()),
        call_ensures(Session::chunk, (fed, read), r),
    ensures
        final(released).released,
        final(released).phase == old(released).phase,
        final(released).pending == old(released).pending,
        final(fed).phase == old(fed).phase && final(fed).released == old(fed).released
            && final(fed).client == old(fed).client,
        r is Ok <==> read is Data && 0 < (read->Data_0)@.len() <= 10000,
        r is Ok ==> final(fed).pending@ == old(fed).pending@ + (read->Data_0)@,
        r is Err ==> final(fed).pending@ == old(fed).pending@,
{
}

/// A listener that starts listens, under a number that is new; its failure ends that and
/// drops no socket.
pub proof fn law_listeners(
    starting: &mut Connector,
    failing: &mut Connector,
    generation: u64,
    r: u64,
    fresh: Connector,
)
    requires
        old(starting).generation < u64::MAX,
        call_ensures(Connector::started, (starting,), r),
        call_ensures(Connector::listener_failed, (failing, generation), ()),
        call_ensures(Connector::new, (), fresh),
    ensures
        final(starting).listening && final(starting).bound,
        r == final(starting).generation && r > old(starting).generation,
        final(starting)@.sockets == old(starting)@.sockets,
        final(failing).listening <==> old(failing).listening && old(failing).generation
            != generation,
        final(failing)@.sockets == old(failing)@.sockets,
        !fresh.listening && !fresh.bound,
        forall|id: u32| !(#[trigger] fresh@.sockets.dom().contains(id)),
{
}

/// A request is checked by its values; one that is refused leaves the client as it was.
pub proof fn law_checked_request(
    request: &JsonValue,
    id: JsonValue,
    action: &JsonValue,
    client: &mut Option<JsonValue>,
    given: (bool, bool),
    r: Result<(), String>,
)
    requires
        call_ensures(truthy, (request,), given.0),
        call_ensures(truthy, (&id,), given.1),
        call_ensures(check_request, (request, id, action, client), r),
    ensures
        !given.0 ==> r is Err,
        given.0 && !given.1 ==> (r is Ok <==> action@ == Json::Text("ping"@)),
        given.0 && given.1 && *old(client) is None ==> r is Ok && client_of(*final(client)) == Some(
            id@,
        ),
        *old(client) is Some ==> client_of(*final(client)) == client_of(*old(client)),
        r is Err ==> *final(client) == *old(client),
{
}

} // verus!
