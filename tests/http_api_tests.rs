use mimic_rs::{
    CreateExpectationRequest, DispatchOutcome, MockExpectation, MockResponse, MockServer, StringMap,
    VerifyRequest,
};
use serde_json::Value;

type Gen = fn(usize) -> MockResponse;

fn obj(pairs: Vec<(&str, Value)>) -> Value {
    let mut m = serde_json::Map::new();
    for (k, v) in pairs {
        m.insert(k.to_string(), v);
    }
    Value::Object(m)
}

fn no_files(name: &String) -> Result<String, String> {
    Err(format!("no file {}", name))
}

fn get(server: &mut MockServer<Gen>, path: &str) -> DispatchOutcome {
    server.handle_request(
        "GET".to_string(),
        path.to_string(),
        StringMap::new(),
        StringMap::new(),
        None,
        &no_files,
    )
}

fn status_of(o: &DispatchOutcome) -> u16 {
    match o {
        DispatchOutcome::Respond(c) => c.status_code,
        DispatchOutcome::NotFound => 404,
        DispatchOutcome::ReadFailed(_) => 500,
        DispatchOutcome::CallLimitReached => 500,
    }
}

fn body_json(o: &DispatchOutcome) -> Value {
    match o {
        DispatchOutcome::Respond(c) => serde_json::from_str(&c.body).unwrap(),
        _ => panic!("no response"),
    }
}

#[test]
fn test_setup_api() {
    let mut server: MockServer<Gen> = MockServer::new("./tests/resources");
    let mut response = MockResponse::new(200);
    response.body = Some(obj(vec![("message", Value::from("Created via API"))]));
    let request = CreateExpectationRequest {
        method: "GET".to_string(),
        path: "/api/dynamic".to_string(),
        query_params: StringMap::new(),
        headers: StringMap::new(),
        body: None,
        response,
    };
    let expectation = MockExpectation::from_request(request);
    assert_eq!(expectation.method, "GET");
    assert_eq!(expectation.path, "/api/dynamic");
    server.add_expectation(expectation);

    let resp = get(&mut server, "/api/dynamic");
    assert_eq!(status_of(&resp), 200);
    assert_eq!(body_json(&resp)["message"], "Created via API");
}

#[test]
fn test_verify_api() {
    let mut server: MockServer<Gen> = MockServer::new("./tests/resources");
    server
        .expect()
        .path("/api/verification-test")
        .method("GET")
        .respond()
        .status(200)
        .json(obj(vec![("test", Value::from(true))]))
        .build(&mut server);

    for _ in 0..3 {
        get(&mut server, "/api/verification-test");
    }
    let ok = server.verify_calls(VerifyRequest {
        method: "GET".to_string(),
        path: "/api/verification-test".to_string(),
        times: 3,
    });
    assert!(ok.success);
    assert_eq!(ok.actual, 3);
    let wrong = server.verify_calls(VerifyRequest {
        method: "GET".to_string(),
        path: "/api/verification-test".to_string(),
        times: 5,
    });
    assert!(!wrong.success);
    assert_eq!(wrong.expected, 5);
    assert_eq!(wrong.actual, 3);
}

#[test]
fn test_reset_api() {
    let mut server: MockServer<Gen> = MockServer::new("./tests/resources");
    server
        .expect()
        .path("/api/reset-test")
        .method("GET")
        .respond()
        .status(200)
        .json(obj(vec![("before_reset", Value::from(true))]))
        .build(&mut server);

    assert_eq!(status_of(&get(&mut server, "/api/reset-test")), 200);
    server.reset();
    assert_eq!(status_of(&get(&mut server, "/api/reset-test")), 404);
}

#[test]
fn setup_request_method_is_upper_cased() {
    let request = CreateExpectationRequest {
        method: "delete".to_string(),
        path: "/api/x/*".to_string(),
        query_params: StringMap::new(),
        headers: StringMap::new(),
        body: Some("b".to_string()),
        response: MockResponse::new(202),
    };
    let expectation = MockExpectation::from_request(request);
    assert_eq!(expectation.method, "DELETE");
    assert_eq!(expectation.body.as_deref(), Some("b"));
    assert_eq!(expectation.response.status_code, 202);
}

#[test]
fn setup_request_header_names_are_lower_cased() {
    let mut headers = StringMap::new();
    headers.insert("X-Token".to_string(), "abc".to_string());
    headers.insert("Accept".to_string(), "text/plain".to_string());
    let request = CreateExpectationRequest {
        method: "GET".to_string(),
        path: "/api/token".to_string(),
        query_params: StringMap::new(),
        headers,
        body: None,
        response: MockResponse::new(200),
    };
    let expectation = MockExpectation::from_request(request);
    assert_eq!(expectation.headers.get(&"x-token".to_string()).unwrap(), "abc");
    assert!(expectation.headers.get(&"X-Token".to_string()).is_none());

    let mut server: MockServer<Gen> = MockServer::new("./tests/resources");
    server.add_expectation(expectation);
    let mut given = StringMap::new();
    given.insert("x-token".to_string(), "abc".to_string());
    given.insert("accept".to_string(), "text/plain".to_string());
    let out = server.handle_request(
        "GET".to_string(),
        "/api/token".to_string(),
        StringMap::new(),
        given,
        None,
        &no_files,
    );
    assert_eq!(status_of(&out), 200);
}
