use std::collections::HashMap;
use udp_socket_service::clock::Timestamp;
use udp_socket_service::handler::{Counters, DecodeError, Dispatch, Handler, Request, Response, Status};
use udp_socket_service::store::{StoreAnswer, StoreCall};

/// A store in memory that answers as a store of the service is expected to.
fn run(db: &mut HashMap<String, Vec<u8>>, call: &StoreCall) -> StoreAnswer {
    match call {
        StoreCall::Get { key } => StoreAnswer::Value(db.get(key).cloned()),
        StoreCall::Put { key, value } => StoreAnswer::Value(db.insert(key.clone(), value.clone())),
        StoreCall::Remove { key } => StoreAnswer::Value(db.remove(key)),
        StoreCall::Size => StoreAnswer::Count(db.len()),
        StoreCall::Keys => {
            let mut keys: Vec<String> = db.keys().cloned().collect();
            keys.sort();
            StoreAnswer::Keys(keys)
        }
        StoreCall::Load { .. } => StoreAnswer::Failed,
        StoreCall::Save { .. } => StoreAnswer::Count(db.len()),
    }
}

fn serve(handler: &mut Handler, db: &mut HashMap<String, Vec<u8>>, request: Request) -> Response {
    match handler.handle_request(request) {
        Dispatch::Reply(response) => response,
        Dispatch::Store(call) => {
            let answer = run(db, &call);
            Handler::respond(&call, answer)
        }
    }
}

fn create_handler() -> Handler {
    Handler::new()
}

fn request(cmd: &str, params: &[&str]) -> Request {
    Request { cmd: cmd.to_string(), params: params.iter().map(|p| p.to_string()).collect() }
}

#[test]
fn get_set_del_dbsize() {
    let mut handler = create_handler();
    let mut db = HashMap::new();
    assert_eq!(db.len(), 0);

    let key = "1234.MyKey";
    let value = "This is a test value";
    let msg = format!("set {} {}", key, value);
    let request = Request::from_message(msg.as_str()).unwrap();
    let response = serve(&mut handler, &mut db, request);
    println!("{:?}", response);
    assert_eq!(db.len(), 1);

    let msg = format!("get {}", key);
    let request = Request::from_message(msg.as_str()).unwrap();
    let response = serve(&mut handler, &mut db, request);
    println!("{:?}", response);
    assert_eq!(response.body, value);
    let request = Request::from_message("dbsize").unwrap();
    let response = serve(&mut handler, &mut db, request);
    println!("dbsize {:?}", response);
    assert_eq!(db.len(), 1);
    assert_eq!(response.as_usize().unwrap(), 1);
}

#[test]
fn bad_set() {
    let mut handler = create_handler();
    let mut db = HashMap::new();
    let request = Request { cmd: "set".to_string(), params: vec!["mykey".to_string()] };
    let response = serve(&mut handler, &mut db, request);
    assert_eq!(response.status.code, 400);
    assert_eq!(response.body, "set");
}

#[test]
fn bad_get() {
    let mut handler = create_handler();
    let mut db = HashMap::new();
    let request = Request { cmd: "get".to_string(), params: vec!["my-bad-key".to_string()] };
    let response = serve(&mut handler, &mut db, request);
    assert_eq!(response.status.code, 404);
    assert_eq!(response.body, "my-bad-key");
}

#[test]
fn del() {
    let mut handler = create_handler();
    let mut db = HashMap::new();
    let rq = Request {
        cmd: "set".to_string(),
        params: vec!["mykey".to_string(), "my value".to_string()],
    };
    let _ = serve(&mut handler, &mut db, rq);

    assert_eq!(db.len(), 1);

    let request = Request { cmd: "del".to_string(), params: vec!["mykey".to_string()] };
    let response = serve(&mut handler, &mut db, request.clone());
    assert_eq!(response.status.code, 200);
    assert_eq!(response.body, "my value");
    let response = serve(&mut handler, &mut db, request.clone());
    assert_eq!(response.status.code, 200);
    assert_eq!(response.body, "ok");
}

#[test]
fn handler_new() {
    let handler = Handler::new();
    assert_eq!(handler.counters().access, 0);
    assert_eq!(handler.counters().errors, 0);
}

#[test]
fn status_bad_request() {
    let status = Status::bad_request();
    assert_eq!(status.code, 400);
}

#[test]
fn status_not_found() {
    let status = Status::not_found();
    assert_eq!(status.code, 404);
}

#[test]
fn create_response() {
    let status = Status::not_found();
    let response = Response::create(status, "this is a test".to_string());
    assert_eq!(response.status.code, 404);
}

#[test]
fn response_as_u64() {
    let response = Response::create_ok("42".to_string());
    let n = response.as_u64();
    assert!(n.is_ok());
    assert_eq!(n.unwrap(), 42);
}

#[test]
fn response_as_string() {
    let response = Response::create_ok("this is the body part".to_string());
    let ss = response.as_string();
    assert_eq!(ss, "200:ok:this is the body part");
}

#[test]
fn statuses_have_their_descriptions() {
    assert_eq!(Status::ok(), Status { code: 200, description: "ok".to_string() });
    assert_eq!(Status::bad_request().description, "bad-request");
    assert_eq!(Status::not_found().description, "not-found");
}

#[test]
fn from_message_splits_command_key_and_value() {
    let request = Request::from_message("  set   k1 \t a  value\twith   gaps \n").unwrap();
    assert_eq!(request.cmd, "set");
    assert_eq!(request.params, vec!["k1".to_string(), "a value with gaps".to_string()]);
}

#[test]
fn from_message_without_key_has_one_empty_parameter() {
    let request = Request::from_message("ping").unwrap();
    assert_eq!(request.cmd, "ping");
    assert_eq!(request.params, vec![String::new()]);
}

#[test]
fn from_message_refuses_a_message_without_command() {
    assert_eq!(Request::from_message(""), Err(DecodeError::Empty));
    assert_eq!(Request::from_message(" \t\r\n"), Err(DecodeError::Empty));
    assert_eq!(DecodeError::Empty.description(), "");
}

#[test]
fn ping_answers_pong() {
    let mut handler = Handler::started_at(7);
    let mut db = HashMap::new();
    db.insert("k".to_string(), b"v".to_vec());
    let response = serve(&mut handler, &mut db, request("ping", &[""]));
    assert_eq!(response.as_string(), "200:ok:PONG");
}

#[test]
fn now_and_now_ns_show_the_time_given() {
    let mut handler = Handler::started_at(0);
    let now = Timestamp { secs: 1_700_000_000, nanos: 123_456_789 };
    let reply = handler.handle_request_at(request("now", &[""]), now);
    assert_eq!(reply, Dispatch::Reply(Response::create_ok("1700000000".to_string())));
    let reply = handler.handle_request_at(request("now_ns", &[""]), now);
    assert_eq!(reply, Dispatch::Reply(Response::create_ok("1700000000123456789".to_string())));
}

#[test]
fn status_shows_the_counters() {
    let mut handler = Handler::started_at(1234);
    let mut db = HashMap::new();
    let _ = serve(&mut handler, &mut db, request("ping", &[]));
    let _ = serve(&mut handler, &mut db, request("nonsense", &[]));
    let response = serve(&mut handler, &mut db, request("status", &[]));
    assert_eq!(response.status.code, 200);
    assert_eq!(response.body, "start_time: 1234, access: 3, errors: 1");
    assert_eq!(handler.counters(), Counters { start_time: 1234, access: 3, errors: 1 });
}

#[test]
fn unknown_command_is_a_bad_request() {
    let mut handler = Handler::started_at(0);
    let mut db = HashMap::new();
    let response = serve(&mut handler, &mut db, request("PING", &[""]));
    assert_eq!(response.as_string(), "400:bad-request:PING");
    assert_eq!(handler.counters().errors, 1);
}

#[test]
fn commands_without_their_key_are_bad_requests() {
    let mut handler = Handler::started_at(0);
    let mut db = HashMap::new();
    for cmd in ["get", "set", "del", "loaddb", "savedb"] {
        let response = serve(&mut handler, &mut db, request(cmd, &[]));
        assert_eq!(response.status, Status::bad_request());
        assert_eq!(response.body, cmd);
    }
    assert_eq!(handler.counters().errors, 0);
}

#[test]
fn set_shows_the_previous_value() {
    let mut handler = Handler::started_at(0);
    let mut db = HashMap::new();
    let first = serve(&mut handler, &mut db, request("set", &["k", "one"]));
    assert_eq!(first.as_string(), "200:ok:ok");
    let second = serve(&mut handler, &mut db, request("set", &["k", "two"]));
    assert_eq!(second.as_string(), "200:ok:one");
    let size = serve(&mut handler, &mut db, request("dbsize", &[""]));
    assert_eq!(size.as_string(), "200:ok:1");
}

#[test]
fn keys_are_shown_as_a_list() {
    let mut handler = Handler::started_at(0);
    let mut db = HashMap::new();
    let _ = serve(&mut handler, &mut db, request("set", &["b", "1"]));
    let _ = serve(&mut handler, &mut db, request("set", &["a \"q\"", "2"]));
    let response = serve(&mut handler, &mut db, request("keys", &[""]));
    assert_eq!(response.as_string(), "200:ok:[\"a \\\"q\\\"\", \"b\"]");
}

#[test]
fn loaddb_and_savedb_answer_with_a_count_or_the_filename() {
    let mut handler = Handler::started_at(0);
    let mut db = HashMap::new();
    let _ = serve(&mut handler, &mut db, request("set", &["k", "v"]));
    let saved = serve(&mut handler, &mut db, request("savedb", &["out.kv"]));
    assert_eq!(saved.as_string(), "200:ok:1");
    let loaded = serve(&mut handler, &mut db, request("loaddb", &["missing.kv"]));
    assert_eq!(loaded.as_string(), "400:bad-request:missing.kv");
}

#[test]
fn an_answer_of_the_wrong_kind_is_a_bad_request() {
    let get = StoreCall::Get { key: "k".to_string() };
    assert_eq!(Handler::respond(&get, StoreAnswer::Count(3)).as_string(), "400:bad-request:get");
    assert_eq!(Handler::respond(&StoreCall::Size, StoreAnswer::Failed).as_string(), "400:bad-request:dbsize");
    let keys = Handler::respond(&StoreCall::Keys, StoreAnswer::Value(None));
    assert_eq!(keys.as_string(), "400:bad-request:keys");
}

#[test]
fn a_value_that_is_not_utf8_is_shown_with_replacements() {
    let get = StoreCall::Get { key: "k".to_string() };
    let response = Handler::respond(&get, StoreAnswer::Value(Some(vec![b'a', 0xff, b'b'])));
    assert_eq!(response.as_string(), "200:ok:a\u{fffd}b");
}

#[test]
fn as_usize_and_as_u64_read_the_body() {
    assert_eq!(Response::create_ok("18446744073709551615".to_string()).as_u64(), Ok(u64::MAX));
    assert!(Response::create_ok("18446744073709551616".to_string()).as_u64().is_err());
    assert_eq!(Response::create_ok("+7".to_string()).as_usize(), Ok(7));
    assert!(Response::create_ok("seven".to_string()).as_usize().is_err());
}
