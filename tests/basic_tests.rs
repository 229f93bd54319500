use mimic_rs::{DispatchOutcome, MockResponse, MockServer, StringMap};
use serde_json::Value;

type Gen = fn(usize) -> MockResponse;

fn obj(pairs: Vec<(&str, Value)>) -> Value {
    let mut m = serde_json::Map::new();
    for (k, v) in pairs {
        m.insert(k.to_string(), v);
    }
    Value::Object(m)
}

fn no_files(name: &String) -> Result<String, String> {
    Err(format!("no file {}", name))
}

fn get(server: &mut MockServer<Gen>, path: &str) -> DispatchOutcome {
    server.handle_request(
        "GET".to_string(),
        path.to_string(),
        StringMap::new(),
        StringMap::new(),
        None,
        &no_files,
    )
}

fn status_of(o: &DispatchOutcome) -> u16 {
    match o {
        DispatchOutcome::Respond(c) => c.status_code,
        DispatchOutcome::NotFound => 404,
        DispatchOutcome::ReadFailed(_) => 500,
        DispatchOutcome::CallLimitReached => 500,
    }
}

fn body_json(o: &DispatchOutcome) -> Value {
    match o {
        DispatchOutcome::Respond(c) => serde_json::from_str(&c.body).unwrap(),
        _ => panic!("no response"),
    }
}

#[test]
fn test_basic_static_response() {
    let mut server: MockServer<Gen> = MockServer::new("./tests/resources");
    server
        .expect()
        .path("/api/hello")
        .method("GET")
        .respond()
        .status(200)
        .json(obj(vec![("message", Value::from("Hello, world!"))]))
        .build(&mut server);

    let resp = get(&mut server, "/api/hello");
    assert_eq!(status_of(&resp), 200);
    assert_eq!(body_json(&resp)["message"], "Hello, world!");
    assert_eq!(server.count_calls("GET", "/api/hello"), 1);
}

#[test]
fn test_path_not_found() {
    let mut server: MockServer<Gen> = MockServer::new("./tests/resources");
    server
        .expect()
        .path("/api/defined")
        .method("GET")
        .respond()
        .status(200)
        .json(obj(vec![("status", Value::from("ok"))]))
        .build(&mut server);

    let resp = get(&mut server, "/api/undefined");
    assert_eq!(status_of(&resp), 404);
}

#[test]
fn test_reset_server() {
    let mut server: MockServer<Gen> = MockServer::new("./tests/resources");
    server
        .expect()
        .path("/api/test")
        .method("GET")
        .respond()
        .status(200)
        .json(obj(vec![("test", Value::from(true))]))
        .build(&mut server);

    let resp = get(&mut server, "/api/test");
    assert_eq!(status_of(&resp), 200);

    server.reset();
    assert!(server.get_request_log().is_empty());
    assert!(server.get_expectations().is_empty());

    let resp = get(&mut server, "/api/test");
    assert_eq!(status_of(&resp), 404);
}
