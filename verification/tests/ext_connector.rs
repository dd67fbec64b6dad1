use lemonkee::ext_connector::{
    check_request, connection_info, extension_of, handshake, introduce, notification_outcome,
    remove_socket, socket_name_fits, socket_path, truthy, validate_request, Connector,
    ConnectorConfig, Extension, Handshake, Phase, Session, SessionStep, SocketBase, SocketFile,
};
use lemonkee::ext_frames::{frame, ChunkRead};
use lemonkee::json::JsonValue;
use lemonkee::platform::{ByteOrder, Platform};

fn config(team: &str) -> ConnectorConfig {
    ConnectorConfig { apple_team_id: team.to_string() }
}

fn path(platform: Platform, team: &str, name: Result<&str, &str>) -> Result<(SocketBase, String), String> {
    let name = name.map(|n| n.to_string()).map_err(|e| e.to_string());
    socket_path(platform, &config(team), 501, name).map(|found| (found.base, found.path))
}

#[test]
fn paths_of_sockets() {
    assert_eq!(
        path(Platform::MacOs, "3LE7JZ657W", Err("unused")),
        Ok((SocketBase::Home, "Library/Group Containers/3LE7JZ657W.keeweb/conn.sock".to_string()))
    );
    for team in ["", "../x", "a b", "\u{e4}"] {
        assert_eq!(path(Platform::MacOs, team, Ok("x")), Err("Invalid Apple team ID".to_string()));
    }
    assert_eq!(
        path(Platform::Linux, "", Err("unused")),
        Ok((SocketBase::Temp, "keeweb-connect-501.sock".to_string()))
    );
    assert_eq!(
        path(Platform::Windows, "", Ok("me")),
        Ok((SocketBase::Nowhere, "\\\\.\\pipe\\keeweb-connect-me".to_string()))
    );
    assert_eq!(path(Platform::Windows, "", Err("unset")), Err("unset".to_string()));
    assert_eq!(path(Platform::Other, "", Ok("me")), Err("Not supported on this platform".to_string()));
}

#[test]
fn long_names_of_pipes() {
    let prefix = "\\\\.\\pipe\\keeweb-connect-".len();
    let fitting = "x".repeat(256 - prefix);
    assert!(path(Platform::Windows, "", Ok(&fitting)).is_ok());
    let message = Err("Browser extension pipe name is too long".to_string());
    assert_eq!(path(Platform::Windows, "", Ok(&format!("{fitting}x"))), message);
    let wide = "\u{1f34b}".repeat((256 - prefix) / 2 + 1);
    assert_eq!(path(Platform::Windows, "", Ok(&wide)), message);
}

#[test]
fn files_in_the_way() {
    assert_eq!(socket_name_fits(104), Ok(()));
    assert_eq!(socket_name_fits(105), Err("Browser extension socket name is too long".to_string()));
    assert_eq!(remove_socket(SocketFile::Socket, "/s"), Ok(true));
    assert_eq!(remove_socket(SocketFile::Missing, "/s"), Ok(false));
    assert_eq!(
        remove_socket(SocketFile::OtherFile, "/s"),
        Err("Refusing to remove a non-socket file: /s".to_string())
    );
    assert_eq!(remove_socket(SocketFile::Failed("denied".to_string()), "/s"), Err("denied".to_string()));
}

#[test]
fn sockets_come_and_go() {
    let mut connector = Connector::new();
    assert_eq!(connector.connect_socket(0), None);
    let generation = connector.started();
    assert_eq!(generation, 1);
    assert!(connector.listening && connector.bound);
    assert_eq!(connector.connect_socket(generation), Some(1));
    assert_eq!(connector.connect_socket(generation), Some(2));
    assert!(!connector.browser_extension_connector_socket_result(1));
    assert_eq!(connector.connected(1, true), Ok(()));
    assert_eq!(connector.connected(2, false), Ok(()));
    assert!(connector.browser_extension_connector_socket_result(1));
    assert!(connector.browser_extension_connector_socket_result(2));
    assert!(connector.browser_extension_connector_socket_event(1));
    assert!(!connector.browser_extension_connector_socket_event(2));
    assert!(connector.browser_extension_connector_close_socket(2));
    connector.closed(2);
    assert!(!connector.browser_extension_connector_close_socket(2));
    assert!(!connector.browser_extension_connector_socket_result(2));
    assert_eq!(connector.connected(2, true), Err("Socket closed during handshake".to_string()));
    assert_eq!(connector.connect_socket(generation), Some(3));
}

#[test]
fn stopped_listeners_are_ignored() {
    let mut connector = Connector::new();
    let first = connector.started();
    connector.connect_socket(first);
    connector.connected(1, true).unwrap();
    assert!(connector.stop());
    assert!(!connector.stop());
    assert!(!connector.browser_extension_connector_socket_result(1));
    assert_eq!(connector.connect_socket(first), None);
    let second = connector.started();
    assert_eq!(connector.connect_socket(first), None);
    connector.listener_failed(first);
    assert!(connector.listening);
    assert_eq!(connector.connect_socket(second), Some(2));
    connector.listener_failed(second);
    assert!(!connector.listening && connector.bound);
    assert_eq!(connector.connect_socket(second), None);
}

#[test]
fn numbers_of_sockets_run_out() {
    let mut connector = Connector::new();
    let generation = connector.started();
    connector.next_socket_id = u32::MAX;
    assert_eq!(connector.connect_socket(generation), None);
    assert_eq!(connector.next_socket_id, u32::MAX);
}

#[test]
fn outcome_of_notifications() {
    assert_eq!(notification_outcome(&vec![]), Ok(()));
    assert_eq!(
        notification_outcome(&vec!["first".to_string(), "second".to_string()]),
        Err("second".to_string())
    );
}

fn number(value: f64) -> JsonValue {
    JsonValue::Number { bits: Some(value.to_bits()), natural: None }
}

fn string(value: &str) -> JsonValue {
    JsonValue::Text(value.to_string())
}

#[test]
fn values_that_count_as_true() {
    for value in [JsonValue::Bool(true), number(1.0), number(-0.5), string("0"), JsonValue::Array, JsonValue::Object] {
        assert!(truthy(&value));
    }
    for value in [JsonValue::Null, JsonValue::Bool(false), number(0.0), number(-0.0), string("")] {
        assert!(!truthy(&value));
    }
}

fn check(request: &str, client: &mut Option<JsonValue>) -> Result<(), String> {
    validate_request(&request.as_bytes().to_vec(), client)
}

#[test]
fn clients_keep_their_names() {
    let mut client = None;
    assert_eq!(check("{\"action\":\"ping\"}", &mut client), Ok(()));
    assert!(client.is_none());
    assert_eq!(check("{\"clientID\":\"a\",\"action\":\"get\"}", &mut client), Ok(()));
    assert!(matches!(&client, Some(JsonValue::Text(name)) if name == "a"));
    assert_eq!(check("{\"clientID\":\"a\"}", &mut client), Ok(()));
    assert_eq!(check("{\"action\":\"ping\"}", &mut client), Ok(()));
    assert_eq!(
        check("{\"clientID\":\"b\"}", &mut client),
        Err("Changing client ID is not allowed".to_string())
    );
    assert_eq!(
        check("{\"clientID\":1}", &mut client),
        Err("Changing client ID is not allowed".to_string())
    );
    assert!(matches!(&client, Some(JsonValue::Text(name)) if name == "a"));
}

#[test]
fn numbers_and_structures_as_clients() {
    let mut client = None;
    assert_eq!(check("{\"clientID\":1}", &mut client), Ok(()));
    assert_eq!(check("{\"clientID\":1.0}", &mut client), Ok(()));
    assert!(check("{\"clientID\":2}", &mut client).is_err());
    let mut client = None;
    assert_eq!(check("{\"clientID\":[1]}", &mut client), Ok(()));
    assert_eq!(
        check("{\"clientID\":[1]}", &mut client),
        Err("Changing client ID is not allowed".to_string())
    );
    let mut client = None;
    assert_eq!(check("{\"clientID\":true}", &mut client), Ok(()));
    assert_eq!(check("{\"clientID\":true}", &mut client), Ok(()));
}

#[test]
fn refused_requests() {
    let mut client = None;
    for request in ["null", "false", "0", "-0.0", "\"\""] {
        assert_eq!(check(request, &mut client), Err("Empty browser extension request".to_string()));
    }
    for request in ["{}", "[]", "7", "{\"clientID\":\"\",\"action\":\"get\"}", "{\"action\":[\"ping\"]}"] {
        assert_eq!(
            check(request, &mut client),
            Err("Empty client ID in browser extension request".to_string())
        );
    }
    assert_eq!(check("{", &mut client), Err("EOF while parsing an object at line 1 column 1".to_string()));
    assert!(client.is_none());
    assert_eq!(check_request(&JsonValue::Object, JsonValue::Null, &string("ping"), &mut client), Ok(()));
}

#[test]
fn known_extensions() {
    let dev = vec!["chrome-extension://dev/".to_string()];
    let of = |origin| extension_of(origin, &dev);
    assert_eq!(of("chrome-extension://pikpfmjfkekaeinceagbebpfkmkdlcjk/"), Extension::KeeWebConnect);
    assert_eq!(of("chrome-extension://nmggpehkjmeaeocmaijenpejbepckinm/"), Extension::KeeWebConnect);
    assert_eq!(of("keeweb-connect-addon@keeweb.info"), Extension::KeeWebConnect);
    assert_eq!(of("safari-keeweb-connect"), Extension::KeeWebConnect);
    assert_eq!(of("chrome-extension://oboonakemofpalcgghocfoadofidjkkk/"), Extension::KeePassXcBrowser);
    assert_eq!(of("chrome-extension://pdffhmdngciaglkoonimfcmckehcpafo/"), Extension::KeePassXcBrowser);
    assert_eq!(of("keepassxc-browser@keepassxc.org"), Extension::KeePassXcBrowser);
    assert_eq!(of("chrome-extension://dev/"), Extension::KeeWebConnect);
    assert_eq!(of("chrome-extension://evil/"), Extension::Unknown);
    assert_eq!(Extension::KeeWebConnect.name(), "KeeWeb Connect");
    assert_eq!(Extension::KeePassXcBrowser.name(), "KeePassXC-Browser");
    assert_eq!(Extension::Unknown.name(), "unknown");
}

fn greet(message: &str) -> Result<Handshake, String> {
    connection_info(&message.as_bytes().to_vec(), &vec![])
}

#[test]
fn introductions() {
    assert_eq!(
        greet("{\"origin\":\"keepassxc-browser@keepassxc.org\",\"pid\":5,\"ppid\":4}"),
        Ok(Handshake { extension: Extension::KeePassXcBrowser, safari: false, parent: Some(4) })
    );
    assert_eq!(
        greet("{\"origin\":\"safari-keeweb-connect\",\"pid\":5,\"ppid\":4}"),
        Ok(Handshake { extension: Extension::KeeWebConnect, safari: true, parent: None })
    );
    for ppid in ["4294967296", "-1", "1.5", "\"4\"", "true"] {
        assert_eq!(
            greet(&format!("{{\"origin\":[1],\"pid\":\"x\",\"ppid\":{ppid}}}")),
            Ok(Handshake { extension: Extension::Unknown, safari: false, parent: None })
        );
    }
    let message = Err("Browser extension handshake requires origin and pid".to_string());
    assert_eq!(greet("{}"), message);
    assert_eq!(greet("{\"origin\":\"x\",\"pid\":0,\"ppid\":1}"), message);
    assert_eq!(
        greet("{\"origin\":\"x\",\"pid\":1}"),
        Err("Browser extension handshake requires ppid".to_string())
    );
    assert!(greet("nonsense").is_err());
    let safari = handshake(&string("safari-keeweb-connect"), &number(1.0), &JsonValue::Null, &vec![]);
    assert!(safari.unwrap().safari);
}

#[test]
fn connections_are_told() {
    let browser = Handshake { extension: Extension::KeeWebConnect, safari: false, parent: Some(4) };
    let info = introduce(3, &browser, "Firefox".to_string());
    assert_eq!((info.connection_id, info.app_name.as_str()), (3, "Firefox"));
    assert_eq!((info.extension_name, info.supports_notifications), ("KeeWeb Connect", true));
    let safari = Handshake { safari: true, ..browser };
    let info = introduce(4, &safari, "unused".to_string());
    assert_eq!((info.app_name.as_str(), info.supports_notifications), ("Safari", false));
}

fn step(session: &mut Session) -> Result<SessionStep, String> {
    session.read_requests(ByteOrder::Little)
}

#[test]
fn requests_wait_for_results() {
    let mut session = Session::new();
    assert!(matches!(step(&mut session), Ok(SessionStep::Read)));
    let mut bytes = frame(&b"{\"origin\":1}".to_vec(), ByteOrder::Little).unwrap();
    for request in ["{\"clientID\":1}", "{\"clientID\":1,\"n\":2}"] {
        bytes.extend(frame(&request.as_bytes().to_vec(), ByteOrder::Little).unwrap());
    }
    session.chunk(ChunkRead::Data(bytes)).unwrap();
    assert!(matches!(step(&mut session), Ok(SessionStep::Introduction(m)) if m == b"{\"origin\":1}"));
    assert!(matches!(step(&mut session), Ok(SessionStep::Request(m)) if m == b"{\"clientID\":1}"));
    assert!(matches!(step(&mut session), Ok(SessionStep::ReadOrResult)));
    assert!(matches!(step(&mut session), Ok(SessionStep::ReadOrResult)));
    session.release();
    assert!(matches!(step(&mut session), Ok(SessionStep::Request(m)) if m == b"{\"clientID\":1,\"n\":2}"));
    assert!(matches!(session.phase, Phase::Result));
    session.release();
    assert!(matches!(step(&mut session), Ok(SessionStep::Read)));
    assert!(matches!(step(&mut session), Ok(SessionStep::Read)));
}

#[test]
fn bad_requests_end_a_session() {
    let mut session = Session::new();
    let mut bytes = frame(&b"{}".to_vec(), ByteOrder::Little).unwrap();
    bytes.extend(frame(&b"{}".to_vec(), ByteOrder::Little).unwrap());
    session.chunk(ChunkRead::Data(bytes)).unwrap();
    assert!(matches!(step(&mut session), Ok(SessionStep::Introduction(_))));
    assert_eq!(step(&mut session).err(), Some("Empty client ID in browser extension request".to_string()));
    session.chunk(ChunkRead::Data(vec![0xff; 4])).unwrap();
    assert_eq!(
        step(&mut session).err(),
        Some("Incoming browser extension frame exceeds 10000 bytes".to_string())
    );
    assert_eq!(session.chunk(ChunkRead::Data(vec![])), Err("Connection closed".to_string()));
}
