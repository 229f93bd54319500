use mimic_rs::{extract_query_params, DispatchOutcome, MockResponse, MockServer, StringMap};
use serde_json::Value;

type Gen = fn(usize) -> MockResponse;

fn obj(pairs: Vec<(&str, Value)>) -> Value {
    let mut m = serde_json::Map::new();
    for (k, v) in pairs {
        m.insert(k.to_string(), v);
    }
    Value::Object(m)
}

fn no_files(name: &String) -> Result<String, String> {
    Err(format!("no file {}", name))
}

fn map_of(pairs: &[(&str, &str)]) -> StringMap {
    let mut m = StringMap::new();
    for (k, v) in pairs {
        m.insert(k.to_string(), v.to_string());
    }
    m
}

fn send(
    server: &mut MockServer<Gen>,
    method: &str,
    path: &str,
    query: &[(&str, &str)],
    headers: &[(&str, &str)],
    body: Option<&str>,
) -> u16 {
    let out = server.handle_request(
        method.to_string(),
        path.to_string(),
        map_of(query),
        map_of(headers),
        body.map(|b| b.to_string()),
        &no_files,
    );
    match out {
        DispatchOutcome::Respond(c) => c.status_code,
        DispatchOutcome::NotFound => 404,
        DispatchOutcome::ReadFailed(_) => 500,
        DispatchOutcome::CallLimitReached => 500,
    }
}

#[test]
fn test_query_parameters() {
    let mut server: MockServer<Gen> = MockServer::new("./tests/resources");
    server
        .expect()
        .path("/api/search")
        .method("GET")
        .query_param("q", "test")
        .query_param("limit", "10")
        .respond()
        .status(200)
        .json(obj(vec![("results", Value::from(vec!["test1", "test2"]))]))
        .build(&mut server);

    assert_eq!(send(&mut server, "GET", "/api/search", &[("q", "test"), ("limit", "10")], &[], None), 200);
    assert_eq!(send(&mut server, "GET", "/api/search", &[("q", "test")], &[], None), 404);
    assert_eq!(send(&mut server, "GET", "/api/search", &[("q", "test"), ("limit", "20")], &[], None), 404);
}

#[test]
fn query_subset_ignores_extra_keys() {
    let mut server: MockServer<Gen> = MockServer::new("./tests/resources");
    server
        .expect()
        .path("/api/search")
        .method("GET")
        .query_param("q", "test")
        .query_param("limit", "10")
        .respond()
        .status(200)
        .build(&mut server);

    let q = extract_query_params(Some("q=test&limit=10&extra=1"));
    let out = server.handle_request(
        "GET".to_string(),
        "/api/search".to_string(),
        q,
        StringMap::new(),
        None,
        &no_files,
    );
    assert!(matches!(out, DispatchOutcome::Respond(ref c) if c.status_code == 200));
    let missing = extract_query_params(Some("q=test"));
    let out = server.handle_request(
        "GET".to_string(),
        "/api/search".to_string(),
        missing,
        StringMap::new(),
        None,
        &no_files,
    );
    assert!(matches!(out, DispatchOutcome::NotFound));
}

#[test]
fn test_request_headers() {
    let mut server: MockServer<Gen> = MockServer::new("./tests/resources");
    server
        .expect()
        .path("/api/secure")
        .method("GET")
        .header("Authorization", "Bearer token123")
        .header("X-API-Key", "secret-key")
        .respond()
        .status(200)
        .json(obj(vec![("authorized", Value::from(true))]))
        .build(&mut server);

    let ok = [("authorization", "Bearer token123"), ("x-api-key", "secret-key")];
    assert_eq!(send(&mut server, "GET", "/api/secure", &[], &ok, None), 200);
    let missing = [("authorization", "Bearer token123")];
    assert_eq!(send(&mut server, "GET", "/api/secure", &[], &missing, None), 404);
    let wrong = [("authorization", "Bearer wrong-token"), ("x-api-key", "secret-key")];
    assert_eq!(send(&mut server, "GET", "/api/secure", &[], &wrong, None), 404);
}

#[test]
fn test_request_body() {
    let mut server: MockServer<Gen> = MockServer::new("./tests/resources");
    let original = obj(vec![("message", Value::from("hello"))]);
    server
        .expect()
        .path("/api/echo")
        .method("POST")
        .body(r#"{"message":"hello"}"#)
        .respond()
        .status(200)
        .json(obj(vec![("echoed", Value::from(true)), ("original", original)]))
        .build(&mut server);

    let headers = [("content-type", "application/json")];
    assert_eq!(send(&mut server, "POST", "/api/echo", &[], &headers, Some(r#"{"message":"hello"}"#)), 200);
    assert_eq!(send(&mut server, "POST", "/api/echo", &[], &headers, Some(r#"{"message":"different"}"#)), 404);
    assert_eq!(send(&mut server, "POST", "/api/echo", &[], &headers, None), 404);
}

#[test]
fn search_end_to_end() {
    let mut server: MockServer<Gen> = MockServer::new("./tests/resources");
    server
        .expect()
        .path("/api/search")
        .method("GET")
        .query_param("q", "test")
        .query_param("limit", "10")
        .respond()
        .status(200)
        .json(obj(vec![("results", Value::from(vec!["test1", "test2"]))]))
        .build(&mut server);

    let out = server.handle_request(
        "GET".to_string(),
        "/api/search".to_string(),
        map_of(&[("q", "test")]),
        StringMap::new(),
        None,
        &no_files,
    );
    assert!(matches!(out, DispatchOutcome::NotFound));
    let out = server.handle_request(
        "GET".to_string(),
        "/api/search".to_string(),
        map_of(&[("q", "test"), ("limit", "10")]),
        StringMap::new(),
        None,
        &no_files,
    );
    match out {
        DispatchOutcome::Respond(c) => {
            assert_eq!(c.status_code, 200);
            assert_eq!(c.body, r#"{"results":["test1","test2"]}"#);
            assert_eq!(c.headers.get(&"Content-Type".to_string()).unwrap(), "application/json");
        }
        _ => panic!("expected the registered response"),
    }
}

#[test]
fn unconstrained_body_accepts_any() {
    let mut server: MockServer<Gen> = MockServer::new("./tests/resources");
    server.expect().path("/api/any").method("PUT").respond().status(204).build(&mut server);
    assert_eq!(send(&mut server, "PUT", "/api/any", &[], &[], Some("whatever")), 204);
    assert_eq!(send(&mut server, "PUT", "/api/any", &[], &[], None), 204);
}
