use griffin::forward::{
    plan_forward, resolve, route, ForwardError, ForwardOutcome, ForwardPlan, ForwardSession,
    ForwardStage, ForwardStep, Upstream,
};
use griffin::grpc_kind::GrpcKind;
use http::header::{HeaderName, HeaderValue, CONTENT_LENGTH, CONTENT_TYPE, HOST};
use http::{HeaderMap, Uri};

fn block(fields: &[(&'static str, &'static str)]) -> HeaderMap {
    let mut map = HeaderMap::new();
    for (name, value) in fields {
        map.append(HeaderName::from_static(name), HeaderValue::from_static(value));
    }
    map
}

fn upstream(kind: GrpcKind, uri: &str) -> Result<ForwardPlan, ForwardError> {
    Ok(ForwardPlan::Upstream(Upstream { kind, uri: uri.parse().unwrap() }))
}

#[test]
fn route_by_content_type() {
    assert_eq!(route(&None), Err(ForwardError::MissingContentType));
    assert_eq!(route(&Some(b"text/html".to_vec())), Err(ForwardError::UnsupportedContentType));
    assert_eq!(route(&Some(b"application/grpc".to_vec())), Ok(GrpcKind::Plain));
    assert_eq!(route(&Some(b"application/grpc-web+proto".to_vec())), Ok(GrpcKind::Web));
}

#[test]
fn metrics_path_is_served_here() {
    let mut headers = block(&[("host", "proxy"), ("accept", "*/*")]);
    let before = headers.clone();
    assert_eq!(plan_forward(b"/metrics", &mut headers, b"127.0.0.1:3000"), Ok(ForwardPlan::Metrics));
    assert_eq!(headers, before);
}

#[test]
fn metrics_path_is_exact() {
    let mut headers = block(&[("content-type", "application/grpc")]);
    assert_eq!(
        plan_forward(b"/metrics/", &mut headers, b"up:1"),
        upstream(GrpcKind::Plain, "http://up:1/metrics/")
    );
    let mut headers = HeaderMap::new();
    assert_eq!(
        plan_forward(b"/metric", &mut headers, b"up:1"),
        Err(ForwardError::MissingContentType)
    );
}

#[test]
fn plain_request_goes_upstream() {
    let mut headers = block(&[
        ("host", "proxy.local:8080"),
        ("content-type", "application/grpc"),
        ("content-length", "12"),
        ("te", "trailers"),
    ]);
    let plan = plan_forward(b"/helloworld.Greeter/SayHello", &mut headers, b"127.0.0.1:3000");
    assert_eq!(
        plan,
        upstream(GrpcKind::Plain, "http://127.0.0.1:3000/helloworld.Greeter/SayHello")
    );
    assert_eq!(headers.get(HOST).unwrap(), "127.0.0.1:3000");
    assert_eq!(headers.get_all(HOST).iter().count(), 1);
    assert_eq!(headers.get(CONTENT_TYPE).unwrap(), "application/grpc");
    assert_eq!(headers.get(CONTENT_LENGTH).unwrap(), "12");
    assert_eq!(headers.get("te").unwrap(), "trailers");
    assert_eq!(headers.len(), 4);
}

#[test]
fn web_request_goes_upstream_as_grpc() {
    let mut headers = block(&[
        ("content-type", "application/grpc-web+proto"),
        ("content-length", "12"),
        ("x-grpc-web", "1"),
    ]);
    let plan = plan_forward(b"/helloworld.Greeter/SayHello", &mut headers, b"backend:50051");
    assert_eq!(
        plan,
        upstream(GrpcKind::Web, "http://backend:50051/helloworld.Greeter/SayHello")
    );
    assert_eq!(headers.get(HOST).unwrap(), "backend:50051");
    assert_eq!(headers.get(CONTENT_TYPE).unwrap(), "application/grpc");
    assert!(headers.get(CONTENT_LENGTH).is_none());
    assert_eq!(headers.get("x-grpc-web").unwrap(), "1");
    assert_eq!(headers.len(), 3);
}

#[test]
fn first_content_type_decides() {
    let mut headers = block(&[
        ("content-type", "application/grpc-web"),
        ("content-type", "application/json"),
    ]);
    assert_eq!(plan_forward(b"/a", &mut headers, b"up"), upstream(GrpcKind::Web, "http://up/a"));
    let mut headers = block(&[
        ("content-type", "application/json"),
        ("content-type", "application/grpc"),
    ]);
    assert_eq!(plan_forward(b"/a", &mut headers, b"up"), Err(ForwardError::UnsupportedContentType));
}

#[test]
fn missing_content_type_is_rejected_with_host_set() {
    let mut headers = block(&[("host", "proxy"), ("accept", "*/*")]);
    assert_eq!(plan_forward(b"/a", &mut headers, b"up:1"), Err(ForwardError::MissingContentType));
    assert_eq!(headers.get(HOST).unwrap(), "up:1");
    assert_eq!(headers.get("accept").unwrap(), "*/*");
    assert_eq!(headers.len(), 2);
}

#[test]
fn unknown_content_type_is_rejected() {
    let mut headers = block(&[("content-type", "application/json")]);
    assert_eq!(
        plan_forward(b"/a", &mut headers, b"up:1"),
        Err(ForwardError::UnsupportedContentType)
    );
    assert_eq!(headers.get(CONTENT_TYPE).unwrap(), "application/json");
}

#[test]
fn authority_must_fit_a_header() {
    let mut headers = block(&[("content-type", "application/grpc"), ("host", "proxy")]);
    let before = headers.clone();
    assert_eq!(
        plan_forward(b"/a", &mut headers, b"up\r\n:1"),
        Err(ForwardError::InvalidAuthority)
    );
    assert_eq!(headers, before);
    assert_eq!(plan_forward(b"/a", &mut headers, &[0x7f]), Err(ForwardError::InvalidAuthority));
}

#[test]
fn target_must_be_a_uri() {
    let mut headers = block(&[("content-type", "application/grpc")]);
    assert_eq!(
        plan_forward(b"/a", &mut headers, b"tab\tis no host"),
        Err(ForwardError::InvalidUri)
    );
    assert_eq!(headers.get(HOST).unwrap(), "tab\tis no host");
    assert_eq!(plan_forward(b"/a b", &mut headers, b"up:1"), Err(ForwardError::InvalidUri));
}

#[test]
fn bad_target_is_found_before_content_type() {
    let mut headers = HeaderMap::new();
    assert_eq!(plan_forward(b"/a b", &mut headers, b"up:1"), Err(ForwardError::InvalidUri));
    let mut headers = block(&[("content-type", "text/plain")]);
    assert_eq!(plan_forward(b"/a b", &mut headers, b"up:1"), Err(ForwardError::InvalidUri));
}

#[test]
fn resolve_by_target_and_content_type() {
    let uri = || Some("http://up:1/a".parse::<Uri>().unwrap());
    let grpc = Some(b"application/grpc".to_vec());
    let web = Some(b"application/grpc-web".to_vec());
    assert_eq!(resolve(None, &grpc), Err(ForwardError::InvalidUri));
    assert_eq!(resolve(None, &None), Err(ForwardError::InvalidUri));
    assert_eq!(resolve(uri(), &None), Err(ForwardError::MissingContentType));
    assert_eq!(
        resolve(uri(), &Some(b"text/plain".to_vec())),
        Err(ForwardError::UnsupportedContentType)
    );
    assert_eq!(
        resolve(uri(), &grpc),
        Ok(Upstream { kind: GrpcKind::Plain, uri: uri().unwrap() })
    );
    assert_eq!(resolve(uri(), &web), Ok(Upstream { kind: GrpcKind::Web, uri: uri().unwrap() }));
}

#[test]
fn empty_path_and_authority() {
    let mut headers = block(&[("content-type", "application/grpc")]);
    assert_eq!(plan_forward(b"", &mut headers, b""), Err(ForwardError::InvalidUri));
    assert_eq!(headers.get(HOST).unwrap(), "");
    assert_eq!(plan_forward(b"", &mut headers, b"up:1"), upstream(GrpcKind::Plain, "http://up:1"));
}

#[test]
fn session_of_metrics_request() {
    let (mut session, step) = ForwardSession::open(Ok(ForwardPlan::Metrics));
    assert_eq!(step, ForwardStep::ServeMetrics);
    assert!(!step.asks_record());
    assert!(session.is_done());
    assert_eq!(session.kind(), None);
    assert_eq!(session.uri(), None);
    assert_eq!(session.advance(true), None);
    assert_eq!(session.advance(false), None);
}

#[test]
fn session_of_rejected_request() {
    let (mut session, step) = ForwardSession::open(Err(ForwardError::MissingContentType));
    assert_eq!(step, ForwardStep::Finish(ForwardOutcome::Rejected(ForwardError::MissingContentType)));
    assert!(step.asks_record());
    assert!(session.is_done());
    assert_eq!(session.advance(true), None);
}

#[test]
fn session_that_is_answered() {
    let (mut session, step) = ForwardSession::open(upstream(GrpcKind::Web, "http://up/a"));
    assert_eq!(step, ForwardStep::Connect);
    assert!(!session.is_done());
    assert_eq!(session.kind(), Some(GrpcKind::Web));
    assert_eq!(session.uri(), Some(&"http://up/a".parse::<Uri>().unwrap()));
    let mut asked = 0;
    for expected in [
        ForwardStep::Handshake,
        ForwardStep::Send,
        ForwardStep::Finish(ForwardOutcome::Answered),
    ] {
        let step = session.advance(true).unwrap();
        assert_eq!(step, expected);
        if step.asks_record() {
            asked += 1;
        }
    }
    assert_eq!(asked, 1);
    assert!(session.is_done());
    assert_eq!(session.advance(true), None);
    assert_eq!(session.kind(), Some(GrpcKind::Web));
}

#[test]
fn session_that_fails_at_each_stage() {
    let failures = [
        (0, ForwardOutcome::ConnectFailed),
        (1, ForwardOutcome::HandshakeFailed),
        (2, ForwardOutcome::SendFailed),
    ];
    for (good, outcome) in failures {
        let (mut session, first) = ForwardSession::open(upstream(GrpcKind::Plain, "http://up/a"));
        let mut asked = if first.asks_record() { 1 } else { 0 };
        for _ in 0..good {
            let step = session.advance(true).unwrap();
            assert!(!step.asks_record());
        }
        let last = session.advance(false).unwrap();
        assert_eq!(last, ForwardStep::Finish(outcome));
        if last.asks_record() {
            asked += 1;
        }
        assert!(session.is_done());
        assert_eq!(session.advance(false), None);
        assert_eq!(asked, 1);
    }
}

#[test]
fn stages_are_distinct() {
    assert_ne!(ForwardStage::Connecting, ForwardStage::Done);
    assert_ne!(ForwardStage::Handshaking, ForwardStage::Sending);
}

#[test]
fn full_block_is_not_forwarded() {
    let mut headers = HeaderMap::new();
    headers.insert(CONTENT_TYPE, HeaderValue::from_static("application/grpc"));
    let mut i = 0u32;
    loop {
        let name = HeaderName::from_bytes(format!("x-filler-{}", i).as_bytes()).unwrap();
        if headers.try_append(name, HeaderValue::from_static("v")).is_err() {
            break;
        }
        i += 1;
    }
    let before = headers.clone();
    assert_eq!(plan_forward(b"/a", &mut headers, b"up:1"), Err(ForwardError::HeadersFull));
    assert_eq!(headers, before);
    assert_eq!(plan_forward(b"/metrics", &mut headers, b"up:1"), Ok(ForwardPlan::Metrics));
    assert_eq!(headers, before);
}

fn block_of(fields: usize, content_type: &'static str) -> HeaderMap {
    let mut map = HeaderMap::new();
    map.insert(CONTENT_TYPE, HeaderValue::from_static(content_type));
    for i in 1..fields {
        let name = HeaderName::from_bytes(format!("x-filler-{}", i).as_bytes()).unwrap();
        map.append(name, HeaderValue::from_static("v"));
    }
    map
}

#[test]
fn plain_request_on_a_block_with_room_goes_upstream() {
    let mut headers = block_of(3276, "application/grpc");
    assert_eq!(headers.len(), 3276);
    assert_eq!(plan_forward(b"/a", &mut headers, b"up:1"), upstream(GrpcKind::Plain, "http://up:1/a"));
    assert_eq!(headers.len(), 3277);
    assert_eq!(headers.get(HOST).unwrap(), "up:1");
}

#[test]
fn web_request_on_a_block_with_room_for_two_goes_upstream() {
    let mut headers = block_of(3275, "application/grpc-web-text");
    assert_eq!(headers.len(), 3275);
    assert_eq!(plan_forward(b"/a.B/C", &mut headers, b"up:1"), upstream(GrpcKind::Web, "http://up:1/a.B/C"));
    assert_eq!(headers.len(), 3276);
    assert_eq!(headers.get(HOST).unwrap(), "up:1");
    assert_eq!(headers.get(CONTENT_TYPE).unwrap(), "application/grpc");
}

#[test]
fn rejection_on_a_block_with_room_is_by_content_type_or_target() {
    let mut headers = block_of(3276, "text/plain");
    assert_eq!(
        plan_forward(b"/a", &mut headers, b"up:1"),
        Err(ForwardError::UnsupportedContentType)
    );
    let mut headers = block_of(3276, "application/grpc");
    headers.remove(CONTENT_TYPE);
    assert_eq!(plan_forward(b"/a", &mut headers, b"up:1"), Err(ForwardError::MissingContentType));
    let mut headers = block_of(3276, "application/grpc");
    assert_eq!(plan_forward(b"/a b", &mut headers, b"up:1"), Err(ForwardError::InvalidUri));
}

#[test]
fn error_texts() {
    assert_eq!(ForwardError::MissingContentType.message(), "Missing Content-Type header");
    assert_eq!(ForwardError::UnsupportedContentType.message(), "Unsupported Content-Type header");
    assert_eq!(ForwardError::InvalidAuthority.message(), "Invalid upstream authority");
    assert_eq!(ForwardError::InvalidUri.message(), "Invalid upstream URI");
    assert_eq!(ForwardError::HeadersFull.message(), "Too many header fields");
}
