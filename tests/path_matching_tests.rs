use mimic_rs::{DispatchOutcome, MockResponse, MockServer, StringMap};
use serde_json::Value;

type Gen = fn(usize) -> MockResponse;

fn obj(pairs: Vec<(&str, Value)>) -> Value {
    let mut m = serde_json::Map::new();
    for (k, v) in pairs {
        m.insert(k.to_string(), v);
    }
    Value::Object(m)
}

fn no_files(name: &String) -> Result<String, String> {
    Err(format!("no file {}", name))
}

fn get(server: &mut MockServer<Gen>, path: &str) -> DispatchOutcome {
    server.handle_request(
        "GET".to_string(),
        path.to_string(),
        StringMap::new(),
        StringMap::new(),
        None,
        &no_files,
    )
}

fn status_of(o: &DispatchOutcome) -> u16 {
    match o {
        DispatchOutcome::Respond(c) => c.status_code,
        DispatchOutcome::NotFound => 404,
        DispatchOutcome::ReadFailed(_) => 500,
        DispatchOutcome::CallLimitReached => 500,
    }
}

fn body_json(o: &DispatchOutcome) -> Value {
    match o {
        DispatchOutcome::Respond(c) => serde_json::from_str(&c.body).unwrap(),
        _ => panic!("no response"),
    }
}

#[test]
fn test_wildcard_paths() {
    let mut server: MockServer<Gen> = MockServer::new("./tests/resources");
    server
        .expect()
        .path("/api/users/*/profile")
        .method("GET")
        .respond()
        .status(200)
        .json(obj(vec![("profile", Value::from("data"))]))
        .build(&mut server);

    let paths = vec![
        "/api/users/123/profile",
        "/api/users/abc/profile",
        "/api/users/user@example.com/profile",
    ];
    for path in paths {
        let resp = get(&mut server, path);
        assert_eq!(status_of(&resp), 200);
        assert_eq!(body_json(&resp)["profile"], "data");
    }

    let resp = get(&mut server, "/api/users/123/settings");
    assert_eq!(status_of(&resp), 404);
}

#[test]
fn test_multiple_wildcards() {
    let mut server: MockServer<Gen> = MockServer::new("./tests/resources");
    server
        .expect()
        .path("/api/*/items/*")
        .method("GET")
        .respond()
        .status(200)
        .json(obj(vec![("wildcards", Value::from(true))]))
        .build(&mut server);

    let paths = vec!["/api/users/items/123", "/api/products/items/abc", "/api/categories/items/xyz"];
    for path in paths {
        let resp = get(&mut server, path);
        assert_eq!(status_of(&resp), 200);
        assert_eq!(body_json(&resp)["wildcards"], true);
    }
}

#[test]
fn wildcard_property() {
    let mut server: MockServer<Gen> = MockServer::new("./tests/resources");
    server.expect().path("/api/*/profile").method("GET").respond().status(200).build(&mut server);

    assert_eq!(status_of(&get(&mut server, "/api/123/profile")), 200);
    assert_eq!(status_of(&get(&mut server, "/api/x/profile")), 200);
    assert_eq!(status_of(&get(&mut server, "/api//profile")), 200);
    assert_eq!(status_of(&get(&mut server, "/api/a/b/profile")), 200);
    assert_eq!(status_of(&get(&mut server, "/api/123/settings")), 404);
    assert_eq!(status_of(&get(&mut server, "/api/123/profile/extra")), 404);
    assert_eq!(status_of(&get(&mut server, "/v1/api/123/profile")), 404);
}

#[test]
fn exact_path_is_plain_equality() {
    let mut server: MockServer<Gen> = MockServer::new("./tests/resources");
    server.expect().path("/a.b/c").method("GET").respond().status(200).build(&mut server);

    assert_eq!(status_of(&get(&mut server, "/a.b/c")), 200);
    assert_eq!(status_of(&get(&mut server, "/axb/c")), 404);
    assert_eq!(status_of(&get(&mut server, "/a.b/c/")), 404);
    assert_eq!(status_of(&get(&mut server, "/a.b")), 404);
}

#[test]
fn wildcard_literals_are_escaped() {
    let mut server: MockServer<Gen> = MockServer::new("./tests/resources");
    server.expect().path("/files/*.json").method("GET").respond().status(200).build(&mut server);

    assert_eq!(status_of(&get(&mut server, "/files/data.json")), 200);
    assert_eq!(status_of(&get(&mut server, "/files/.json")), 200);
    assert_eq!(status_of(&get(&mut server, "/files/dataxjson")), 404);
}

#[test]
fn wildcard_expression_text() {
    assert_eq!(mimic_rs::pattern::wildcard_expression("/api/*/profile"), "^/api/.*/profile$");
    assert_eq!(mimic_rs::pattern::wildcard_expression("/a.b/*"), "^/a\\.b/.*$");
    assert_eq!(mimic_rs::pattern::wildcard_expression("*"), "^.*$");
    assert_eq!(mimic_rs::pattern::wildcard_expression("/x+y/**"), "^/x\\+y/.*.*$");
    assert_eq!(mimic_rs::pattern::wildcard_expression(""), "^$");
}

#[test]
fn registration_order_wins() {
    let mut server: MockServer<Gen> = MockServer::new("./tests/resources");
    server.expect().path("/api/users/1").method("GET").respond().status(201).build(&mut server);
    server.expect().path("/api/users/*").method("GET").respond().status(202).build(&mut server);
    server.expect().path("/api/users/1").method("GET").respond().status(203).build(&mut server);

    assert_eq!(status_of(&get(&mut server, "/api/users/1")), 201);
    assert_eq!(status_of(&get(&mut server, "/api/users/2")), 202);
}

#[test]
fn method_must_match() {
    let mut server: MockServer<Gen> = MockServer::new("./tests/resources");
    server.expect().path("/api/thing").method("post").respond().status(200).build(&mut server);

    assert_eq!(status_of(&get(&mut server, "/api/thing")), 404);
    let resp = server.handle_request(
        "POST".to_string(),
        "/api/thing".to_string(),
        StringMap::new(),
        StringMap::new(),
        None,
        &no_files,
    );
    assert_eq!(status_of(&resp), 200);
    assert_eq!(server.get_expectations_by_method("POST").len(), 1);
    assert_eq!(server.get_expectations_by_method("GET").len(), 0);
}
