//! The middleware chain: an ordered sequence of units composed around a
//! terminal handler. A request flows outer-to-inner through the units'
//! `before` hooks, each of which may rewrite it or short-circuit with an
//! immediate response; the response flows inner-to-outer through the
//! `after` hooks in reverse order. A hook failure aborts the chain with a
//! server-error response and skips every remaining `after` hook.

use vstd::prelude::*;

use crate::decorate::{DecoratorModel, LogModel, StreamDecorator};
use crate::message::{
    has_header, header_present, Body, BodyModel, Request, RequestModel, Response, ResponseModel,
};
use crate::stream::{concat_data, has_fault, BodySize, ByteStream, StepModel, StreamModel};

verus! {

/// One middleware unit, one concrete kind per cross-cutting concern.
pub enum UnitKind {
    /// Observes the request and passes it on unchanged (a greeter or
    /// request-line logger; the side effect itself is outside the chain).
    Observer,
    /// Buffers the whole request body for a diagnostic side effect and
    /// forwards the request with the buffered bytes as its body; fails if
    /// the body producer faults.
    RequestLogger,
    /// Wraps the response body in a stream decorator on the way out, so
    /// the bytes sent to the client are also handed to the diagnostic
    /// sink when the body finishes.
    ResponseLogger,
    /// Short-circuits with a redirect when the request lacks the given
    /// header (an auth-token check); otherwise passes the request on.
    RedirectUnless { header: String, location: String },
}

/// Mathematical model of a middleware unit.
pub enum UnitModel {
    Observer,
    RequestLogger,
    ResponseLogger,
    RedirectUnless { header: Seq<char>, location: Seq<char> },
}

impl View for UnitKind {
    type V = UnitModel;

    open spec fn view(&self) -> UnitModel {
        match self {
            UnitKind::Observer => UnitModel::Observer,
            UnitKind::RequestLogger => UnitModel::RequestLogger,
            UnitKind::ResponseLogger => UnitModel::ResponseLogger,
            UnitKind::RedirectUnless { header, location } => UnitModel::RedirectUnless {
                header: header@,
                location: location@,
            },
        }
    }
}

/// What a `before` hook decides for an inbound request.
pub enum BeforeOutcome {
    /// Pass the (possibly rewritten) request to the next stage.
    Forward(Request),
    /// Answer at once; the next stages never see the request.
    ShortCircuit(Response),
    /// The hook failed; the chain aborts.
    Failed,
}

/// Mathematical model of a `before` decision.
pub enum BeforeModel {
    Forward(RequestModel),
    ShortCircuit(ResponseModel),
    Failed,
}

impl View for BeforeOutcome {
    type V = BeforeModel;

    open spec fn view(&self) -> BeforeModel {
        match self {
            BeforeOutcome::Forward(req) => BeforeModel::Forward(req@),
            BeforeOutcome::ShortCircuit(resp) => BeforeModel::ShortCircuit(resp@),
            BeforeOutcome::Failed => BeforeModel::Failed,
        }
    }
}

/// What an `after` hook decides for an outbound response.
pub enum AfterOutcome {
    /// Pass the (possibly re-wrapped) response outward.
    Pass(Response),
    /// The hook failed; the chain aborts.
    Failed,
}

/// Mathematical model of an `after` decision.
pub enum AfterModel {
    Pass(ResponseModel),
    Failed,
}

impl View for AfterOutcome {
    type V = AfterModel;

    open spec fn view(&self) -> AfterModel {
        match self {
            AfterOutcome::Pass(resp) => AfterModel::Pass(resp@),
            AfterOutcome::Failed => AfterModel::Failed,
        }
    }
}

/// A stream with no steps and a declared size of zero bytes.
pub open spec fn empty_stream_model() -> StreamModel {
    StreamModel { steps: Seq::<StepModel>::empty(), pos: 0, size: BodySize::Empty }
}

/// The response the chain surfaces when a hook or the handler fails.
pub open spec fn server_error_model() -> ResponseModel {
    ResponseModel {
        status: 500,
        headers: Seq::<(Seq<char>, Seq<char>)>::empty(),
        body: BodyModel::Stream(empty_stream_model()),
    }
}

/// The response the chain surfaces when a hook or the handler fails.
pub fn server_error() -> (r: Response)
    ensures
        r@ == server_error_model(),
        r@.wf(),
{
    let r = Response {
        status: 500,
        headers: Vec::new(),
        body: Body::Stream(ByteStream::empty()),
    };
    proof {
        assert(r@.headers =~= server_error_model().headers);
        assert(r@.body->Stream_0.steps =~= empty_stream_model().steps);
    }
    r
}

/// The redirect a guarding unit answers with: see-other plus a location
/// header, with an empty body.
pub open spec fn redirect_model(location: Seq<char>) -> ResponseModel {
    ResponseModel {
        status: 303,
        headers: seq![("location"@, location)],
        body: BodyModel::Stream(empty_stream_model()),
    }
}

/// Build the redirect response for a guarding unit.
pub fn redirect_to(location: &String) -> (r: Response)
    ensures
        r@ == redirect_model(location@),
        r@.wf(),
{
    let mut headers: Vec<(String, String)> = Vec::new();
    headers.push(("location".to_owned(), location.clone()));
    let r = Response { status: 303, headers, body: Body::Stream(ByteStream::empty()) };
    proof {
        assert(r@.headers =~= redirect_model(location@).headers);
        assert(r@.body->Stream_0.steps =~= empty_stream_model().steps);
    }
    r
}

/// What each unit's `before` hook decides, as a function of the unit and
/// the request it sees.
pub open spec fn before_model(u: UnitModel, req: RequestModel) -> BeforeModel {
    match u {
        UnitModel::Observer => BeforeModel::Forward(req),
        UnitModel::ResponseLogger => BeforeModel::Forward(req),
        UnitModel::RequestLogger => {
            let window = req.body.steps.subrange(req.body.pos, req.body.steps.len() as int);
            if has_fault(window) {
                BeforeModel::Failed
            } else {
                BeforeModel::Forward(
                    RequestModel {
                        body: StreamModel {
                            steps: seq![StepModel::Data(concat_data(window))],
                            pos: 0,
                            size: BodySize::Known(concat_data(window).len() as u64),
                        },
                        ..req
                    },
                )
            }
        },
        UnitModel::RedirectUnless { header, location } => {
            if header_present(req.headers, header) {
                BeforeModel::Forward(req)
            } else {
                BeforeModel::ShortCircuit(redirect_model(location))
            }
        },
    }
}

/// A stream decorator freshly wrapped around a body: nothing accumulated,
/// terminal action not fired. A body that is already decorated is passed
/// on as it is.
pub open spec fn decorate_body(b: BodyModel) -> BodyModel {
    match b {
        BodyModel::Stream(s) => BodyModel::Decorated(
            DecoratorModel { inner: s, log: LogModel { accum: Seq::<u8>::empty(), emitted: None } },
        ),
        BodyModel::Decorated(_) => b,
    }
}

/// What each unit's `after` hook does to the outbound response.
pub open spec fn after_model(u: UnitModel, resp: ResponseModel) -> AfterModel {
    match u {
        UnitModel::ResponseLogger => AfterModel::Pass(
            ResponseModel { body: decorate_body(resp.body), ..resp },
        ),
        _ => AfterModel::Pass(resp),
    }
}

/// Every unit's `after` hook reports the declared body size unchanged: a
/// decorator claims exactly the size of the stream it wraps.
pub proof fn lemma_after_keeps_size(u: UnitModel, resp: ResponseModel)
    ensures
        match after_model(u, resp) {
            AfterModel::Pass(p) => p.body.size_of() == resp.body.size_of(),
            AfterModel::Failed => true,
        },
{
}

impl UnitKind {
    /// The inbound hook: inspect the request and decide to forward it
    /// (possibly rewritten), to answer at once, or to fail.
    pub fn before(&self, req: Request) -> (r: BeforeOutcome)
        requires
            req@.wf(),
        ensures
            r@ == before_model(self@, req@),
            r matches BeforeOutcome::Forward(fwd) ==> fwd@.wf(),
            r matches BeforeOutcome::ShortCircuit(sc) ==> sc@.wf(),
    {
        match self {
            UnitKind::Observer => BeforeOutcome::Forward(req),
            UnitKind::ResponseLogger => BeforeOutcome::Forward(req),
            UnitKind::RequestLogger => {
                let Request { method, path, headers, body } = req;
                let mut body = body;
                let (bytes, clean) = body.gather();
                if clean {
                    let buffered = ByteStream::from_bytes(bytes);
                    BeforeOutcome::Forward(
                        Request { method, path, headers, body: buffered },
                    )
                } else {
                    BeforeOutcome::Failed
                }
            },
            UnitKind::RedirectUnless { header, location } => {
                if has_header(&req.headers, header) {
                    BeforeOutcome::Forward(req)
                } else {
                    BeforeOutcome::ShortCircuit(redirect_to(location))
                }
            },
        }
    }

    /// The outbound hook: pass the response on, re-wrapped if this unit
    /// decorates response bodies.
    pub fn after(&self, resp: Response) -> (r: AfterOutcome)
        requires
            resp@.wf(),
        ensures
            r@ == after_model(self@, resp@),
            r matches AfterOutcome::Pass(p) ==> p@.wf(),
    {
        match self {
            UnitKind::ResponseLogger => {
                let m = LoggingMiddleware {  };
                AfterOutcome::Pass(m.call(resp))
            },
            _ => AfterOutcome::Pass(resp),
        }
    }
}

/// The response-body logging middleware, as its users configure it: a
/// marker from which the working middleware is created when the chain is
/// composed.
pub struct Logging;

impl Logging {
    /// Create the working middleware for one composed chain.
    pub fn create(&self) -> (m: LoggingMiddleware)
        ensures
            m == (LoggingMiddleware {  }),
    {
        LoggingMiddleware {  }
    }

    /// The place this middleware takes in a chain.
    pub fn unit(&self) -> (u: UnitKind)
        ensures
            u@ == UnitModel::ResponseLogger,
    {
        UnitKind::ResponseLogger
    }
}

/// The working response-body logging middleware: on the outbound path it
/// wraps the response body in a stream decorator, leaving status, headers
/// and the declared body size unchanged.
pub struct LoggingMiddleware;

impl LoggingMiddleware {
    /// The outbound half of the middleware's call: hand the response on
    /// with its body decorated, so the bytes the client receives are also
    /// accumulated for the diagnostic sink.
    pub fn call(&self, resp: Response) -> (r: Response)
        requires
            resp@.wf(),
        ensures
            r@ == (ResponseModel { body: decorate_body(resp@.body), ..resp@ }),
            r@.status == resp@.status,
            r@.headers == resp@.headers,
            r@.body.size_of() == resp@.body.size_of(),
            r@.wf(),
    {
        let Response { status, headers, body } = resp;
        match body {
            Body::Stream(s) => {
                let d = StreamDecorator::wrap(s);
                Response { status, headers, body: Body::Decorated(d) }
            },
            Body::Decorated(d) => Response { status, headers, body: Body::Decorated(d) },
        }
    }
}

/// What a route maps a matching request to.
pub enum RouteAction {
    /// Answer with this status and this body text.
    Reply { status: u16, body: Vec<u8> },
    /// The business logic behind the route fails.
    Fail,
}

/// Mathematical model of a route action.
pub enum RouteActionModel {
    Reply { status: u16, body: Seq<u8> },
    Fail,
}

impl View for RouteAction {
    type V = RouteActionModel;

    open spec fn view(&self) -> RouteActionModel {
        match self {
            RouteAction::Reply { status, body } => RouteActionModel::Reply {
                status: *status,
                body: body@,
            },
            RouteAction::Fail => RouteActionModel::Fail,
        }
    }
}

/// One route of the terminal handler.
pub struct Route {
    pub path: String,
    pub action: RouteAction,
}

/// Mathematical model of a route.
pub struct RouteModel {
    pub path: Seq<char>,
    pub action: RouteActionModel,
}

impl View for Route {
    type V = RouteModel;

    open spec fn view(&self) -> RouteModel {
        RouteModel { path: self.path@, action: self.action@ }
    }
}

/// The terminal handler: routing and business logic, an external
/// collaborator of the chain. It answers the first route whose path
/// matches, with not-found for a path no route covers, and it may fail.
pub struct Handler {
    pub routes: Vec<Route>,
}

/// Mathematical model of the terminal handler.
pub struct HandlerModel {
    pub routes: Seq<RouteModel>,
}

impl View for Handler {
    type V = HandlerModel;

    open spec fn view(&self) -> HandlerModel {
        HandlerModel { routes: self.routes@.map_values(|r: Route| r@) }
    }
}

/// What the terminal handler produces: a response, or a failure the
/// chain must map to a server error.
pub enum HandlerVerdict {
    Reply(Response),
    Failed,
}

/// Mathematical model of a handler verdict.
pub enum HandlerVerdictModel {
    Reply(ResponseModel),
    Failed,
}

impl View for HandlerVerdict {
    type V = HandlerVerdictModel;

    open spec fn view(&self) -> HandlerVerdictModel {
        match self {
            HandlerVerdict::Reply(resp) => HandlerVerdictModel::Reply(resp@),
            HandlerVerdict::Failed => HandlerVerdictModel::Failed,
        }
    }
}

/// The response a route action answers with: the body text as one chunk,
/// with the declared size its byte count.
pub open spec fn apply_route(a: RouteActionModel) -> HandlerVerdictModel {
    match a {
        RouteActionModel::Reply { status, body } => HandlerVerdictModel::Reply(
            ResponseModel {
                status,
                headers: Seq::<(Seq<char>, Seq<char>)>::empty(),
                body: BodyModel::Stream(
                    StreamModel {
                        steps: seq![StepModel::Data(body)],
                        pos: 0,
                        size: BodySize::Known(body.len() as u64),
                    },
                ),
            },
        ),
        RouteActionModel::Fail => HandlerVerdictModel::Failed,
    }
}

/// The response for a path no route covers.
pub open spec fn not_found_model() -> ResponseModel {
    ResponseModel {
        status: 404,
        headers: Seq::<(Seq<char>, Seq<char>)>::empty(),
        body: BodyModel::Stream(empty_stream_model()),
    }
}

/// The verdict of the first route at index `i` or later whose path
/// matches, not-found if none does.
pub open spec fn verdict_from(routes: Seq<RouteModel>, path: Seq<char>, i: int) -> HandlerVerdictModel
    decreases routes.len() - i,
{
    if i < 0 || i >= routes.len() {
        HandlerVerdictModel::Reply(not_found_model())
    } else if routes[i].path == path {
        apply_route(routes[i].action)
    } else {
        verdict_from(routes, path, i + 1)
    }
}

/// What the handler produces for a request.
pub open spec fn handle_model(h: HandlerModel, req: RequestModel) -> HandlerVerdictModel {
    verdict_from(h.routes, req.path, 0)
}

impl Handler {
    /// Dispatch a request to the first route whose path matches.
    #[verifier::loop_isolation(false)]
    pub fn handle(&self, req: &Request) -> (r: HandlerVerdict)
        ensures
            r@ == handle_model(self@, req@),
            r matches HandlerVerdict::Reply(resp) ==> resp@.wf(),
    {
        let mut i: usize = 0;
        while i < self.routes.len()
            invariant
                0 <= i <= self.routes.len(),
                handle_model(self@, req@) == verdict_from(self@.routes, req@.path, i as int),
            decreases self.routes.len() - i,
        {
            if self.routes[i].path == req.path {
                let r = match &self.routes[i].action {
                    RouteAction::Reply { status, body } => {
                        let text = crate::stream::clone_bytes(body);
                        let resp = Response {
                            status: *status,
                            headers: Vec::new(),
                            body: Body::Stream(ByteStream::from_bytes(text)),
                        };
                        proof {
                            assert(resp@.headers =~= Seq::<(Seq<char>, Seq<char>)>::empty());
                        }
                        HandlerVerdict::Reply(resp)
                    },
                    RouteAction::Fail => HandlerVerdict::Failed,
                };
                return r;
            }
            i = i + 1;
        }
        let nf = Response { status: 404, headers: Vec::new(), body: Body::Stream(ByteStream::empty()) };
        proof {
            assert(nf@.headers =~= Seq::<(Seq<char>, Seq<char>)>::empty());
            assert(nf@.body->Stream_0.steps =~= empty_stream_model().steps);
        }
        HandlerVerdict::Reply(nf)
    }
}

/// One entry of the execution trace of a request: which hook or handler
/// ran, in the order they ran.
#[derive(Clone, Copy, PartialEq, Eq, Structural, Debug)]
pub enum Event {
    /// The `before` hook of the unit at this chain index ran.
    Before(usize),
    /// The terminal handler ran.
    Handler,
    /// The `after` hook of the unit at this chain index ran.
    After(usize),
}

/// Mathematical model of one full run of the chain: the response handed
/// to the transport layer, the trace of hooks in the order they ran, and
/// whether a hook failure aborted the run.
pub struct RunModel {
    pub resp: ResponseModel,
    pub trace: Seq<Event>,
    pub aborted: bool,
}

/// The chain's semantics from unit `i` inward: run unit `i`'s `before`
/// hook; on a short-circuit answer at once; otherwise run the rest of the
/// chain and then unit `i`'s `after` hook. A hook failure yields the
/// server-error response and marks the run aborted, which skips every
/// outer `after` hook; a handler failure is mapped to the server-error
/// response and flows out through the `after` hooks normally.
pub open spec fn run_from_model(
    units: Seq<UnitModel>,
    h: HandlerModel,
    req: RequestModel,
    i: int,
) -> RunModel
    decreases units.len() - i,
{
    if i < 0 || i >= units.len() {
        match handle_model(h, req) {
            HandlerVerdictModel::Reply(resp) => RunModel {
                resp,
                trace: seq![Event::Handler],
                aborted: false,
            },
            HandlerVerdictModel::Failed => RunModel {
                resp: server_error_model(),
                trace: seq![Event::Handler],
                aborted: false,
            },
        }
    } else {
        match before_model(units[i], req) {
            BeforeModel::Forward(fwd) => {
                let inner = run_from_model(units, h, fwd, i + 1);
                if inner.aborted {
                    RunModel {
                        resp: inner.resp,
                        trace: seq![Event::Before(i as usize)] + inner.trace,
                        aborted: true,
                    }
                } else {
                    match after_model(units[i], inner.resp) {
                        AfterModel::Pass(resp) => RunModel {
                            resp,
                            trace: seq![Event::Before(i as usize)] + inner.trace + seq![
                                Event::After(i as usize),
                            ],
                            aborted: false,
                        },
                        AfterModel::Failed => RunModel {
                            resp: server_error_model(),
                            trace: seq![Event::Before(i as usize)] + inner.trace + seq![
                                Event::After(i as usize),
                            ],
                            aborted: true,
                        },
                    }
                }
            },
            BeforeModel::ShortCircuit(resp) => RunModel {
                resp,
                trace: seq![Event::Before(i as usize)],
                aborted: false,
            },
            BeforeModel::Failed => RunModel {
                resp: server_error_model(),
                trace: seq![Event::Before(i as usize)],
                aborted: true,
            },
        }
    }
}

/// The full chain's semantics, outermost unit first.
pub open spec fn run_model(units: Seq<UnitModel>, h: HandlerModel, req: RequestModel) -> RunModel {
    run_from_model(units, h, req, 0)
}

/// The view of a chain's unit vector.
pub open spec fn units_model(units: Seq<UnitKind>) -> Seq<UnitModel> {
    units.map_values(|u: UnitKind| u@)
}

/// What one full run of the chain hands back.
pub struct ChainOutcome {
    /// The response for the transport layer.
    pub response: Response,
    /// Which hooks and handler ran, in order.
    pub trace: Vec<Event>,
    /// Whether a hook failure aborted the run.
    pub aborted: bool,
}

/// An ordered sequence of middleware units composed around a terminal
/// handler; fixed at construction, immutable while requests are
/// processed. The first unit is the outermost.
pub struct MiddlewareChain {
    pub units: Vec<UnitKind>,
    pub handler: Handler,
}

/// Run the chain from unit `i` inward on a request.
fn run_from(units: &Vec<UnitKind>, i: usize, handler: &Handler, req: Request) -> (out: ChainOutcome)
    requires
        i <= units.len(),
        req@.wf(),
    ensures
        ({
            let m = run_from_model(units_model(units@), handler@, req@, i as int);
            &&& out.response@ == m.resp
            &&& out.trace@ == m.trace
            &&& out.aborted == m.aborted
        }),
        out.response@.wf(),
    decreases units.len() - i,
{
    if i == units.len() {
        match handler.handle(&req) {
            HandlerVerdict::Reply(resp) => {
                let mut trace: Vec<Event> = Vec::new();
                trace.push(Event::Handler);
                assert(trace@ =~= seq![Event::Handler]);
                ChainOutcome { response: resp, trace, aborted: false }
            },
            HandlerVerdict::Failed => {
                let mut trace: Vec<Event> = Vec::new();
                trace.push(Event::Handler);
                assert(trace@ =~= seq![Event::Handler]);
                ChainOutcome { response: server_error(), trace, aborted: false }
            },
        }
    } else {
        let unit = &units[i];
        match unit.before(req) {
            BeforeOutcome::Forward(fwd) => {
                let inner = run_from(units, i + 1, handler, fwd);
                let ChainOutcome { response: inner_resp, trace: inner_trace, aborted: inner_aborted } =
                    inner;
                let mut trace: Vec<Event> = Vec::new();
                trace.push(Event::Before(i));
                let mut rest = inner_trace;
                trace.append(&mut rest);
                assert(trace@ =~= seq![Event::Before(i)] + inner_trace@);
                if inner_aborted {
                    ChainOutcome { response: inner_resp, trace, aborted: true }
                } else {
                    match unit.after(inner_resp) {
                        AfterOutcome::Pass(resp) => {
                            trace.push(Event::After(i));
                            assert(trace@ =~= seq![Event::Before(i)] + inner_trace@ + seq![
                                Event::After(i),
                            ]);
                            ChainOutcome { response: resp, trace, aborted: false }
                        },
                        AfterOutcome::Failed => {
                            trace.push(Event::After(i));
                            assert(trace@ =~= seq![Event::Before(i)] + inner_trace@ + seq![
                                Event::After(i),
                            ]);
                            ChainOutcome { response: server_error(), trace, aborted: true }
                        },
                    }
                }
            },
            BeforeOutcome::ShortCircuit(resp) => {
                let mut trace: Vec<Event> = Vec::new();
                trace.push(Event::Before(i));
                assert(trace@ =~= seq![Event::Before(i)]);
                ChainOutcome { response: resp, trace, aborted: false }
            },
            BeforeOutcome::Failed => {
                let mut trace: Vec<Event> = Vec::new();
                trace.push(Event::Before(i));
                assert(trace@ =~= seq![Event::Before(i)]);
                ChainOutcome { response: server_error(), trace, aborted: true }
            },
        }
    }
}

/// The trace of `before` events for units `s` up to (not including) `n`,
/// in chain order.
pub open spec fn straight_befores(s: int, n: int) -> Seq<Event> {
    Seq::new((n - s) as nat, |j: int| Event::Before((s + j) as usize))
}

/// The trace of `after` events for units `s` up to (not including) `n`,
/// in reverse chain order.
pub open spec fn reverse_afters(s: int, n: int) -> Seq<Event> {
    Seq::new((n - s) as nat, |j: int| Event::After((n - 1 - j) as usize))
}

/// Every `before` hook from unit `i` inward forwards the request it sees
/// (no short-circuit and no failure on the inbound path).
pub open spec fn all_befores_forward(units: Seq<UnitModel>, req: RequestModel, i: int) -> bool
    decreases units.len() - i,
{
    i >= units.len() || match before_model(units[i], req) {
        BeforeModel::Forward(fwd) => all_befores_forward(units, fwd, i + 1),
        _ => false,
    }
}

/// When no unit short-circuits or fails on the way in and no `after` hook
/// fails on the way out, the trace of a run from unit `i` inward is: the
/// `before` hooks of units `i..n` in chain order, then the handler, then
/// the `after` hooks of the same units in reverse order.
pub proof fn lemma_straight_run(units: Seq<UnitModel>, h: HandlerModel, req: RequestModel, i: int)
    requires
        0 <= i <= units.len(),
        units.len() <= usize::MAX,
        all_befores_forward(units, req, i),
        !run_from_model(units, h, req, i).aborted,
    ensures
        run_from_model(units, h, req, i).trace == straight_befores(i, units.len() as int) + seq![
            Event::Handler,
        ] + reverse_afters(i, units.len() as int),
    decreases units.len() - i,
{
    let n = units.len() as int;
    let run = run_from_model(units, h, req, i);
    if i == n {
        assert(run.trace =~= straight_befores(n, n) + seq![Event::Handler] + reverse_afters(n, n));
    } else {
        match before_model(units[i], req) {
            BeforeModel::Forward(fwd) => {
                let inner = run_from_model(units, h, fwd, i + 1);
                assert(!inner.aborted);
                lemma_straight_run(units, h, fwd, i + 1);
                match after_model(units[i], inner.resp) {
                    AfterModel::Pass(_) => {
                        assert(run.trace =~= straight_befores(i, n) + seq![Event::Handler]
                            + reverse_afters(i, n));
                    },
                    AfterModel::Failed => {
                        assert(false);
                    },
                }
            },
            _ => {
                assert(false);
            },
        }
    }
}

/// The `before` hooks of every unit in front of the whole chain run in
/// chain order, the handler runs after all of them, and the `after` hooks
/// run in exactly the reverse order — whenever nothing short-circuits and
/// nothing fails.
pub proof fn lemma_hooks_run_in_order(units: Seq<UnitModel>, h: HandlerModel, req: RequestModel)
    requires
        units.len() <= usize::MAX,
        all_befores_forward(units, req, 0),
        !run_model(units, h, req).aborted,
    ensures
        run_model(units, h, req).trace == straight_befores(0, units.len() as int) + seq![
            Event::Handler,
        ] + reverse_afters(0, units.len() as int),
{
    lemma_straight_run(units, h, req, 0);
}

/// The request that reaches unit `i`, when every `before` hook of units
/// `s..i` forwards, starting from `req` at unit `s`.
pub open spec fn forwards_to(
    units: Seq<UnitModel>,
    req: RequestModel,
    s: int,
    i: int,
) -> Option<RequestModel>
    decreases i - s,
{
    if s >= i {
        Some(req)
    } else {
        match before_model(units[s], req) {
            BeforeModel::Forward(fwd) => forwards_to(units, fwd, s + 1, i),
            _ => None,
        }
    }
}

/// When unit `i` short-circuits, the trace of a run from unit `s` inward
/// is: the `before` hooks of units `s..=i` in chain order, then the
/// `after` hooks of units `s..i` — not unit `i`'s own — in reverse order;
/// neither the handler nor any unit past `i` appears.
pub proof fn lemma_short_circuit_run(
    units: Seq<UnitModel>,
    h: HandlerModel,
    req: RequestModel,
    s: int,
    i: int,
)
    requires
        0 <= s <= i < units.len(),
        units.len() <= usize::MAX,
        forwards_to(units, req, s, i) is Some,
        before_model(units[i], forwards_to(units, req, s, i)->Some_0) is ShortCircuit,
        !run_from_model(units, h, req, s).aborted,
    ensures
        run_from_model(units, h, req, s).trace == straight_befores(s, i + 1) + reverse_afters(s, i),
    decreases i - s,
{
    let run = run_from_model(units, h, req, s);
    if s == i {
        assert(run.trace =~= straight_befores(i, i + 1) + reverse_afters(i, i));
    } else {
        match before_model(units[s], req) {
            BeforeModel::Forward(fwd) => {
                let inner = run_from_model(units, h, fwd, s + 1);
                assert(!inner.aborted);
                lemma_short_circuit_run(units, h, fwd, s + 1, i);
                match after_model(units[s], inner.resp) {
                    AfterModel::Pass(_) => {
                        assert(run.trace =~= straight_befores(s, i + 1) + reverse_afters(s, i));
                    },
                    AfterModel::Failed => {
                        assert(false);
                    },
                }
            },
            _ => {
                assert(false);
            },
        }
    }
}

/// When unit `i` short-circuits a run of the whole chain: the handler is
/// never invoked, no `before` hook past unit `i` is invoked, unit `i`'s
/// own `after` hook is skipped, and the `after` hooks of the units in
/// front of it still run on the way out, in reverse order.
pub proof fn lemma_short_circuit_skips_rest(
    units: Seq<UnitModel>,
    h: HandlerModel,
    req: RequestModel,
    i: int,
)
    requires
        0 <= i < units.len() <= usize::MAX,
        forwards_to(units, req, 0, i) is Some,
        before_model(units[i], forwards_to(units, req, 0, i)->Some_0) is ShortCircuit,
        !run_model(units, h, req).aborted,
    ensures
        run_model(units, h, req).trace == straight_befores(0, i + 1) + reverse_afters(0, i),
        forall|k: int|
            0 <= k < run_model(units, h, req).trace.len() ==> !(#[trigger] run_model(
                units,
                h,
                req,
            ).trace[k] is Handler),
        forall|k: int|
            0 <= k < run_model(units, h, req).trace.len() ==> (#[trigger] run_model(
                units,
                h,
                req,
            ).trace[k] matches Event::Before(j) ==> j <= i),
{
    lemma_short_circuit_run(units, h, req, 0, i);
    let trace = run_model(units, h, req).trace;
    assert forall|k: int| 0 <= k < trace.len() implies !(#[trigger] trace[k] is Handler) by {
        if k < i + 1 {
            assert(trace[k] == Event::Before(k as usize));
        } else {
            assert(trace[k] == Event::After((i - 1 - (k - (i + 1))) as usize));
        }
    }
    assert forall|k: int| 0 <= k < trace.len() implies (#[trigger] trace[k] matches Event::Before(j)
        ==> j <= i) by {
        if k < i + 1 {
            assert(trace[k] == Event::Before(k as usize));
        } else {
            assert(trace[k] == Event::After((i - 1 - (k - (i + 1))) as usize));
        }
    }
}

impl MiddlewareChain {
    /// Process one request: `before` hooks outer-to-inner, the handler at
    /// the innermost point unless a unit short-circuited, `after` hooks
    /// inner-to-outer, with hook failures surfacing the server-error
    /// response and skipping the remaining `after` hooks.
    pub fn handle(&self, req: Request) -> (out: ChainOutcome)
        requires
            req@.wf(),
        ensures
            ({
                let m = run_model(units_model(self.units@), self.handler@, req@);
                &&& out.response@ == m.resp
                &&& out.trace@ == m.trace
                &&& out.aborted == m.aborted
            }),
            out.response@.wf(),
    {
        run_from(&self.units, 0, &self.handler, req)
    }
}

} // verus!
