use std::collections::HashMap;
use udp_socket_service::clock::Timestamp;
use udp_socket_service::config::Config;
use udp_socket_service::handler::Handler;
use udp_socket_service::server::{Server, Step, RECEIVE_BUFFER_SIZE};
use udp_socket_service::store::{StoreAnswer, StoreCall};

fn create_config() -> Config {
    Config {
        name: "udp-service".to_string(),
        version: "0.4.0".to_string(),
        host: "127.0.0.1".to_string(),
        port: 28400,
        logging_config: "config/rolling.yaml".to_string(),
        data_file: Some("data/store.kv".to_string()),
    }
}

fn create_server() -> Server {
    Server::create(create_config(), Handler::started_at(0))
}

fn run(db: &mut HashMap<String, Vec<u8>>, call: &StoreCall) -> StoreAnswer {
    match call {
        StoreCall::Get { key } => StoreAnswer::Value(db.get(key).cloned()),
        StoreCall::Put { key, value } => StoreAnswer::Value(db.insert(key.clone(), value.clone())),
        StoreCall::Remove { key } => StoreAnswer::Value(db.remove(key)),
        StoreCall::Size => StoreAnswer::Count(db.len()),
        StoreCall::Keys => {
            let mut keys: Vec<String> = db.keys().cloned().collect();
            keys.sort();
            StoreAnswer::Keys(keys)
        }
        StoreCall::Load { .. } => StoreAnswer::Failed,
        StoreCall::Save { .. } => StoreAnswer::Failed,
    }
}

/// What the sender of `payload` receives; nothing where the server stops.
fn send(server: &mut Server, db: &mut HashMap<String, Vec<u8>>, payload: &str) -> Option<String> {
    match server.receive(payload.as_bytes()) {
        Step::Stop => None,
        Step::Reply(bytes) => Some(String::from_utf8(bytes).unwrap()),
        Step::Store(call) => {
            let answer = run(db, &call);
            Some(String::from_utf8(server.complete(&call, answer)).unwrap())
        }
    }
}

#[test]
fn test_create() {
    let server = Server::create(create_config(), Handler::started_at(5));
    println!("{:?}", server);
    assert!(!server.is_stopped());
    assert_eq!(server.address(), "127.0.0.1:28400");
    assert_eq!(server.counters().start_time, 5);
}

#[test]
fn scenarios_on_an_empty_store() {
    let mut server = create_server();
    let mut db = HashMap::new();
    assert_eq!(send(&mut server, &mut db, "ping").unwrap(), "200:ok:PONG");
    assert_eq!(send(&mut server, &mut db, "set k1 v1").unwrap(), "200:ok:ok");
    assert_eq!(send(&mut server, &mut db, "get k1").unwrap(), "200:ok:v1");
    assert_eq!(send(&mut server, &mut db, "get missing").unwrap(), "404:not-found:missing");
    assert_eq!(send(&mut server, &mut db, "dbsize").unwrap(), "200:ok:1");
    assert_eq!(send(&mut server, &mut db, "").unwrap(), "400:bad-request:");
}

#[test]
fn shutdown_stops_the_server_without_a_reply() {
    let mut server = create_server();
    let mut db = HashMap::new();
    assert_eq!(send(&mut server, &mut db, "ping").unwrap(), "200:ok:PONG");
    assert_eq!(send(&mut server, &mut db, " shutdown\r\n"), None);
    assert!(server.is_stopped());
    assert_eq!(server.counters().access, 1);
    assert_eq!(send(&mut server, &mut db, "ping"), None);
    assert_eq!(server.counters().access, 1);
}

#[test]
fn shutdown_with_more_words_is_a_request() {
    let mut server = create_server();
    let mut db = HashMap::new();
    assert_eq!(send(&mut server, &mut db, "shutdown now").unwrap(), "400:bad-request:shutdown");
    assert!(!server.is_stopped());
}

#[test]
fn an_empty_message_is_not_counted() {
    let mut server = create_server();
    let mut db = HashMap::new();
    assert_eq!(send(&mut server, &mut db, " \t\n").unwrap(), "400:bad-request:");
    assert_eq!(server.counters().access, 0);
    assert_eq!(server.counters().errors, 0);
}

#[test]
fn del_twice_is_ok_twice() {
    let mut server = create_server();
    let mut db = HashMap::new();
    assert_eq!(send(&mut server, &mut db, "set k some value").unwrap(), "200:ok:ok");
    assert_eq!(send(&mut server, &mut db, "del k").unwrap(), "200:ok:some value");
    assert_eq!(send(&mut server, &mut db, "del k").unwrap(), "200:ok:ok");
}

#[test]
fn dbsize_counts_the_keys_that_are_set() {
    let mut server = create_server();
    let mut db = HashMap::new();
    for payload in ["set a 1", "set b 2", "set a 3", "del b", "del c", "set d 4"] {
        let _ = send(&mut server, &mut db, payload);
    }
    assert_eq!(send(&mut server, &mut db, "dbsize").unwrap(), "200:ok:2");
    assert_eq!(send(&mut server, &mut db, "keys").unwrap(), "200:ok:[\"a\", \"d\"]");
}

#[test]
fn the_value_keeps_its_words_but_not_its_spacing() {
    let mut server = create_server();
    let mut db = HashMap::new();
    let _ = send(&mut server, &mut db, "set k  a   b\tc ");
    assert_eq!(send(&mut server, &mut db, "get k").unwrap(), "200:ok:a b c");
}

#[test]
fn a_colon_in_the_body_is_not_escaped() {
    let mut server = create_server();
    let mut db = HashMap::new();
    let _ = send(&mut server, &mut db, "set k a:b");
    assert_eq!(send(&mut server, &mut db, "get k").unwrap(), "200:ok:a:b");
}

#[test]
fn bytes_that_are_not_utf8_are_replaced() {
    let mut server = create_server();
    match server.receive(&[b'p', b'i', 0xff, b'g']) {
        Step::Reply(bytes) => {
            assert_eq!(String::from_utf8(bytes).unwrap(), "400:bad-request:pi\u{fffd}g")
        }
        other => panic!("{:?}", other),
    }
}

#[test]
fn a_datagram_is_read_up_to_the_buffer_size() {
    assert_eq!(RECEIVE_BUFFER_SIZE, 128);
    let mut server = create_server();
    let mut payload = b"set k ".to_vec();
    payload.extend(std::iter::repeat(b'x').take(200));
    match server.receive(&payload) {
        Step::Store(StoreCall::Put { key, value }) => {
            assert_eq!(key, "k");
            assert_eq!(value, vec![b'x'; 122]);
        }
        other => panic!("{:?}", other),
    }
}

#[test]
fn now_is_answered_with_the_time_of_the_datagram() {
    let mut server = create_server();
    let now = Timestamp { secs: 42, nanos: 7 };
    assert_eq!(server.receive_at(b"now", now), Step::Reply(b"200:ok:42".to_vec()));
    assert_eq!(server.receive_at(b"now_ns", now), Step::Reply(b"200:ok:42000000007".to_vec()));
    match server.receive(b"now") {
        Step::Reply(bytes) => {
            let text = String::from_utf8(bytes).unwrap();
            let secs: u64 = text.strip_prefix("200:ok:").unwrap().parse().unwrap();
            assert!(secs > 1_600_000_000);
        }
        other => panic!("{:?}", other),
    }
}

#[test]
fn every_reply_has_one_of_three_status_codes() {
    let mut server = create_server();
    let mut db = HashMap::new();
    let payloads = [
        "ping", "now", "now_ns", "status", "get", "get k", "set", "set k", "set k v", "set k v w",
        "del", "del k", "dbsize", "keys", "loaddb", "loaddb f", "savedb", "savedb f", "", "  ",
        "PING", "shut down", "get\u{a0}k", ":", "200:ok:", "\u{0}",
    ];
    for payload in payloads {
        let reply = send(&mut server, &mut db, payload).unwrap();
        let code = reply.split(':').next().unwrap();
        assert!(code == "200" || code == "400" || code == "404", "{:?} -> {:?}", payload, reply);
    }
}

#[test]
fn get_after_set_with_other_requests_between() {
    let mut server = create_server();
    let mut db = HashMap::new();
    let _ = send(&mut server, &mut db, "set k the value");
    for payload in ["ping", "set other x", "del another", "get other", "keys", "dbsize", "bogus"] {
        let _ = send(&mut server, &mut db, payload);
    }
    assert_eq!(send(&mut server, &mut db, "get k").unwrap(), "200:ok:the value");
}
