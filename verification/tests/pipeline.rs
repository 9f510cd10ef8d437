//! The middleware chain seen from outside: hook ordering, short-circuits,
//! hook and handler failures, and the end-to-end request scenarios.

use midware::chain::{
    Event, Handler, Logging, MiddlewareChain, Route, RouteAction, UnitKind,
};
use midware::message::{Body, Request};
use midware::stream::{BodySize, ByteStream, StreamStep};

const ROOT_BODY: &[u8] = b"Hello, middleware! Check the console where the server is run.";
const LOGIN_BODY: &[u8] = b"You are on /login. Go to src/redirect.rs to change this behavior.";

fn demo_handler() -> Handler {
    Handler {
        routes: vec![
            Route {
                path: "/login".to_string(),
                action: RouteAction::Reply { status: 200, body: LOGIN_BODY.to_vec() },
            },
            Route {
                path: "/".to_string(),
                action: RouteAction::Reply { status: 200, body: ROOT_BODY.to_vec() },
            },
        ],
    }
}

fn demo_chain() -> MiddlewareChain {
    MiddlewareChain {
        units: vec![UnitKind::Observer, UnitKind::RequestLogger, Logging.unit()],
        handler: demo_handler(),
    }
}

fn get(path: &str) -> Request {
    Request {
        method: "GET".to_string(),
        path: path.to_string(),
        headers: Vec::new(),
        body: ByteStream::empty(),
    }
}

fn drain_decorated(body: Body) -> (Vec<Vec<u8>>, Vec<u8>) {
    match body {
        Body::Decorated(mut d) => {
            let (chunks, faulted) = d.drain();
            assert!(!faulted);
            let emitted = d.emission().as_ref().unwrap().clone();
            (chunks, emitted)
        }
        Body::Stream(_) => panic!("expected the body to be decorated"),
    }
}

#[test]
fn before_hooks_run_in_declared_order_and_after_hooks_in_reverse() {
    let chain = MiddlewareChain {
        units: vec![UnitKind::Observer, UnitKind::Observer, UnitKind::Observer],
        handler: demo_handler(),
    };
    let out = chain.handle(get("/"));
    assert!(!out.aborted);
    assert_eq!(
        out.trace,
        vec![
            Event::Before(0),
            Event::Before(1),
            Event::Before(2),
            Event::Handler,
            Event::After(2),
            Event::After(1),
            Event::After(0),
        ]
    );
}

#[test]
fn short_circuit_skips_handler_and_later_units() {
    let chain = MiddlewareChain {
        units: vec![
            UnitKind::Observer,
            UnitKind::RedirectUnless {
                header: "token".to_string(),
                location: "/login".to_string(),
            },
            UnitKind::Observer,
        ],
        handler: demo_handler(),
    };
    let out = chain.handle(get("/"));
    assert!(!out.aborted);
    assert_eq!(out.trace, vec![Event::Before(0), Event::Before(1), Event::After(0)]);
    assert_eq!(out.response.status, 303);
    assert_eq!(
        out.response.headers,
        vec![("location".to_string(), "/login".to_string())]
    );
}

#[test]
fn guard_forwards_when_the_header_is_present() {
    let chain = MiddlewareChain {
        units: vec![UnitKind::RedirectUnless {
            header: "token".to_string(),
            location: "/login".to_string(),
        }],
        handler: demo_handler(),
    };
    let mut req = get("/");
    req.headers.push(("token".to_string(), "abc123".to_string()));
    let out = chain.handle(req);
    assert!(!out.aborted);
    assert_eq!(out.response.status, 200);
    assert_eq!(out.trace, vec![Event::Before(0), Event::Handler, Event::After(0)]);
}

#[test]
fn root_request_streams_greeting_and_logs_it() {
    let out = demo_chain().handle(get("/"));
    assert!(!out.aborted);
    assert_eq!(out.response.status, 200);
    assert_eq!(
        out.trace,
        vec![
            Event::Before(0),
            Event::Before(1),
            Event::Before(2),
            Event::Handler,
            Event::After(2),
            Event::After(1),
            Event::After(0),
        ]
    );
    assert_eq!(out.response.body.size(), BodySize::Known(ROOT_BODY.len() as u64));
    let (chunks, emitted) = drain_decorated(out.response.body);
    assert_eq!(chunks, vec![ROOT_BODY.to_vec()]);
    assert_eq!(emitted, ROOT_BODY.to_vec());
}

#[test]
fn login_request_streams_login_page() {
    let out = demo_chain().handle(get("/login"));
    assert!(!out.aborted);
    assert_eq!(out.response.status, 200);
    let (chunks, emitted) = drain_decorated(out.response.body);
    assert_eq!(chunks, vec![LOGIN_BODY.to_vec()]);
    assert_eq!(emitted, LOGIN_BODY.to_vec());
}

#[test]
fn unknown_path_is_not_found() {
    let out = demo_chain().handle(get("/missing"));
    assert!(!out.aborted);
    assert_eq!(out.response.status, 404);
}

#[test]
fn request_logger_buffers_the_request_body() {
    let mut steps: Vec<StreamStep> = Vec::new();
    steps.push(StreamStep::Data(b"ab".to_vec()));
    steps.push(StreamStep::Data(b"cd".to_vec()));
    let mut req = get("/");
    req.body = ByteStream::new(steps, BodySize::Unknown);
    match UnitKind::RequestLogger.before(req) {
        midware::chain::BeforeOutcome::Forward(fwd) => {
            assert_eq!(fwd.body.size(), BodySize::Known(4));
            let mut body = fwd.body;
            let (bytes, clean) = body.gather();
            assert!(clean);
            assert_eq!(bytes, b"abcd".to_vec());
        }
        _ => panic!("expected the request to be forwarded"),
    }
}

#[test]
fn failing_before_hook_aborts_with_server_error() {
    let mut steps: Vec<StreamStep> = Vec::new();
    steps.push(StreamStep::Data(b"ab".to_vec()));
    steps.push(StreamStep::Fault);
    let chain = MiddlewareChain {
        units: vec![UnitKind::Observer, UnitKind::RequestLogger],
        handler: demo_handler(),
    };
    let mut req = get("/");
    req.body = ByteStream::new(steps, BodySize::Unknown);
    let out = chain.handle(req);
    assert!(out.aborted);
    assert_eq!(out.response.status, 500);
    assert_eq!(out.trace, vec![Event::Before(0), Event::Before(1)]);
}

#[test]
fn handler_failure_is_mapped_and_still_flows_through_after_hooks() {
    let chain = MiddlewareChain {
        units: vec![UnitKind::Observer],
        handler: Handler {
            routes: vec![Route { path: "/".to_string(), action: RouteAction::Fail }],
        },
    };
    let out = chain.handle(get("/"));
    assert!(!out.aborted);
    assert_eq!(out.response.status, 500);
    assert_eq!(out.trace, vec![Event::Before(0), Event::Handler, Event::After(0)]);
}

#[test]
fn logging_middleware_decorates_without_touching_metadata() {
    let middleware = Logging.create();
    let handler = demo_handler();
    let verdict = handler.handle(&get("/"));
    let resp = match verdict {
        midware::chain::HandlerVerdict::Reply(resp) => resp,
        midware::chain::HandlerVerdict::Failed => panic!("the demo handler does not fail"),
    };
    let status_before = resp.status;
    let size_before = resp.body.size();
    let wrapped = middleware.call(resp);
    assert_eq!(wrapped.status, status_before);
    assert_eq!(wrapped.body.size(), size_before);
    let (chunks, emitted) = drain_decorated(wrapped.body);
    assert_eq!(chunks, vec![ROOT_BODY.to_vec()]);
    assert_eq!(emitted, ROOT_BODY.to_vec());
}
