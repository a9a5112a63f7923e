//! One forwarded request: what is sent upstream, and the steps from the
//! request's arrival to its answer.
//!
//! The caller owns the sockets. It asks a [`ForwardSession`] for the next
//! step, does what the step names, and reports whether that went well.

use crate::grpc_kind::{
    classify, content_length_name, content_type_name, grpc_type, grpc_web_type,
    lemma_classify_by_prefix, GrpcKind,
};
use crate::headers::{
    ascii, first_value, has_room, header_fields, is_field_value, is_set, lemma_set_adds_one,
    new_value, try_set, values_of, SURE_ROOM,
};
use crate::text::{append_bytes, ascii_bytes, same_bytes};
use crate::uri::{parse_uri, parsed_uri};
use vstd::prelude::*;

verus! {

/// Why a request is not forwarded.
#[derive(Clone, Copy, Debug, PartialEq, Eq, Structural)]
pub enum ForwardError {
    /// The upstream authority cannot stand in a `Host` field.
    InvalidAuthority,
    /// The header block of the request cannot take another field.
    HeadersFull,
    /// The upstream authority and the path of the request make no URI.
    InvalidUri,
    /// The request has no `Content-Type`.
    MissingContentType,
    /// The `Content-Type` of the request is neither gRPC nor gRPC-Web.
    UnsupportedContentType,
}

/// The text by which an error is reported.
pub open spec fn error_text(error: ForwardError) -> Seq<char> {
    match error {
        ForwardError::InvalidAuthority => "Invalid upstream authority"@,
        ForwardError::HeadersFull => "Too many header fields"@,
        ForwardError::InvalidUri => "Invalid upstream URI"@,
        ForwardError::MissingContentType => "Missing Content-Type header"@,
        ForwardError::UnsupportedContentType => "Unsupported Content-Type header"@,
    }
}

impl ForwardError {
    /// The text by which the error is reported.
    pub fn message(&self) -> (text: &'static str)
        ensures
            text@ == error_text(*self),
    {
        match self {
            ForwardError::InvalidAuthority => "Invalid upstream authority",
            ForwardError::HeadersFull => "Too many header fields",
            ForwardError::InvalidUri => "Invalid upstream URI",
            ForwardError::MissingContentType => "Missing Content-Type header",
            ForwardError::UnsupportedContentType => "Unsupported Content-Type header",
        }
    }
}

/// The request that goes upstream.
#[derive(Debug, PartialEq, Eq)]
pub struct Upstream {
    /// The flavour of the request.
    pub kind: GrpcKind,
    /// The absolute URI of the request.
    pub uri: http::Uri,
}

/// What becomes of a request.
#[derive(Debug, PartialEq, Eq)]
pub enum ForwardPlan {
    /// The request asks for the metrics page and is answered here.
    Metrics,
    /// The request goes upstream.
    Upstream(Upstream),
}

/// The path that is answered with the metrics page.
pub open spec fn metrics_path() -> Seq<u8> {
    ascii("/metrics"@)
}

/// The name of the `Host` field.
pub open spec fn host_name() -> Seq<u8> {
    ascii("host"@)
}

/// The absolute URI under which the upstream is asked for `path`.
pub open spec fn upstream_uri(authority: Seq<u8>, path: Seq<u8>) -> Seq<u8> {
    ascii("http://"@) + authority + path
}

/// The flavour of a request by its first `Content-Type`, or why it is
/// rejected.
pub open spec fn routed(content_type: Option<Seq<u8>>) -> Result<GrpcKind, ForwardError> {
    match content_type {
        None => Err(ForwardError::MissingContentType),
        Some(value) => match classify(value) {
            None => Err(ForwardError::UnsupportedContentType),
            Some(kind) => Ok(kind),
        },
    }
}

/// The request that goes upstream, by what the URI parser made of its
/// target and by its first `Content-Type`; or why the request is rejected.
/// A target that is no URI is found before the content type is looked at.
pub open spec fn resolved(uri: Option<http::Uri>, content_type: Option<Seq<u8>>) -> Result<
    Upstream,
    ForwardError,
> {
    match uri {
        None => Err(ForwardError::InvalidUri),
        Some(uri) => match routed(content_type) {
            Err(e) => Err(e),
            Ok(kind) => Ok(Upstream { kind, uri }),
        },
    }
}

/// How many fields the header block of a request must take on its way
/// upstream: `Host`, and for a gRPC-Web request the content type.
pub open spec fn fields_set(wanted: Result<Upstream, ForwardError>) -> nat {
    if wanted matches Ok(u) && u.kind == GrpcKind::Web {
        2
    } else {
        1
    }
}

/// The first value of a sequence, if it has one.
pub open spec fn first_of(values: Seq<Seq<u8>>) -> Option<Seq<u8>> {
    if values.len() > 0 {
        Some(values[0])
    } else {
        None
    }
}

/// `after` is the header block `before` of a request as it goes upstream:
/// `Host` names the upstream, a gRPC-Web request has the content type of
/// native gRPC and no content length, and every other field is as it was.
pub open spec fn is_forwarded(
    kind: GrpcKind,
    authority: Seq<u8>,
    before: Seq<(Seq<u8>, Seq<u8>)>,
    after: Seq<(Seq<u8>, Seq<u8>)>,
) -> bool {
    forall|n: Seq<u8>| #[trigger]
        values_of(after, n) == if kind == GrpcKind::Web && n == content_type_name() {
            seq![grpc_type()]
        } else if kind == GrpcKind::Web && n == content_length_name() {
            Seq::<Seq<u8>>::empty()
        } else if n == host_name() {
            seq![authority]
        } else {
            values_of(before, n)
        }
}

/// `plan` is what becomes of the request for `path`, and `after` is its
/// header block `before` made ready for the upstream at `authority`.
///
/// The metrics path is answered here and its block stays untouched. An
/// authority that cannot stand in a header is an error, and the block stays
/// untouched. Any other request has the upstream as its `Host`; its plan is
/// what its target and its first `Content-Type` give, and a request that
/// goes upstream is rewritten by the rules of its flavour. Only a block
/// without room for the fields that are set may refuse one: the plan is then
/// `HeadersFull`, and the block is untouched or has `Host` set.
pub open spec fn is_planned(
    path: Seq<u8>,
    authority: Seq<u8>,
    before: Seq<(Seq<u8>, Seq<u8>)>,
    after: Seq<(Seq<u8>, Seq<u8>)>,
    plan: Result<ForwardPlan, ForwardError>,
) -> bool {
    let wanted = resolved(
        parsed_uri(upstream_uri(authority, path)),
        first_of(values_of(before, content_type_name())),
    );
    if path == metrics_path() {
        (plan matches Ok(ForwardPlan::Metrics)) && after == before
    } else if !is_field_value(authority) {
        plan == Err::<ForwardPlan, ForwardError>(ForwardError::InvalidAuthority) && after
            == before
    } else if plan == Err::<ForwardPlan, ForwardError>(ForwardError::HeadersFull) {
        &&& before.len() + fields_set(wanted) > SURE_ROOM + 1
        &&& after == before || is_set(before, after, host_name(), authority)
    } else {
        match wanted {
            Err(e) => plan == Err::<ForwardPlan, ForwardError>(e) && is_set(
                before,
                after,
                host_name(),
                authority,
            ),
            Ok(upstream) => plan == Ok::<ForwardPlan, ForwardError>(
                ForwardPlan::Upstream(upstream),
            ) && is_forwarded(upstream.kind, authority, before, after),
        }
    }
}

/// The flavour of a request by the `Content-Type` that its header block
/// gave, or why it is rejected.
pub fn route(content_type: &Option<Vec<u8>>) -> (kind: Result<GrpcKind, ForwardError>)
    ensures
        kind == routed(
            match content_type {
                Some(value) => Some(value@),
                None => None,
            },
        ),
{
    match content_type {
        None => Err(ForwardError::MissingContentType),
        Some(value) => match GrpcKind::from_content_type(value.as_slice()) {
            None => Err(ForwardError::UnsupportedContentType),
            Some(kind) => Ok(kind),
        },
    }
}

/// The request that goes upstream, by what the URI parser made of its
/// target and by the `Content-Type` that its header block gave; or why the
/// request is rejected.
pub fn resolve(uri: Option<http::Uri>, content_type: &Option<Vec<u8>>) -> (upstream: Result<
    Upstream,
    ForwardError,
>)
    ensures
        upstream == resolved(
            uri,
            match content_type {
                Some(value) => Some(value@),
                None => None,
            },
        ),
{
    match uri {
        None => Err(ForwardError::InvalidUri),
        Some(uri) => match route(content_type) {
            Err(e) => Err(e),
            Ok(kind) => Ok(Upstream { kind, uri }),
        },
    }
}

/// Decides what becomes of the request for `path` and makes its header
/// block ready for the upstream at `authority`.
///
/// The metrics path is answered here and its block stays untouched. Any
/// other request gets the upstream as its `Host` and the absolute URI
/// `http://<authority><path>` as its target, is told apart by its first
/// `Content-Type`, and is rewritten by the rules of its flavour. The error
/// is `HeadersFull` only where the header block refuses a field, which it
/// never does while it has room for the fields that are set.
pub fn plan_forward(
    path: &[u8],
    headers: &mut http::HeaderMap<http::HeaderValue>,
    authority: &[u8],
) -> (plan: Result<ForwardPlan, ForwardError>)
    ensures
        is_planned(
            path@,
            authority@,
            header_fields(*old(headers)),
            header_fields(*final(headers)),
            plan,
        ),
{
    proof {
        reveal_strlit("/metrics");
        reveal_strlit("host");
        reveal_strlit("http://");
        reveal_strlit("content-type");
        reveal_strlit("content-length");
    }
    if same_bytes(path, ascii_bytes("/metrics")) {
        return Ok(ForwardPlan::Metrics);
    }
    let host = match new_value(authority) {
        Some(value) => value,
        None => { return Err(ForwardError::InvalidAuthority); },
    };
    if !try_set(headers, "host", host) {
        return Err(ForwardError::HeadersFull);
    }
    let ghost before = header_fields(*old(headers));
    let ghost mid = header_fields(*headers);
    proof {
        lemma_set_adds_one(before, mid, host_name(), authority@);
    }
    assert(host_name().len() != content_type_name().len());
    assert(host_name().len() != content_length_name().len());
    assert(values_of(mid, content_type_name()) == values_of(before, content_type_name()));
    let mut target: Vec<u8> = Vec::new();
    append_bytes(&mut target, ascii_bytes("http://"));
    append_bytes(&mut target, authority);
    append_bytes(&mut target, path);
    let uri = parse_uri(target.as_slice());
    let content_type = first_value(headers, "content-type");
    let upstream = match resolve(uri, &content_type) {
        Err(e) => { return Err(e); },
        Ok(upstream) => upstream,
    };
    if upstream.kind.rewrite_request(headers).is_err() {
        return Err(ForwardError::HeadersFull);
    }
    Ok(ForwardPlan::Upstream(upstream))
}

/// A gRPC-Web request goes upstream as native gRPC. Where the authority
/// fits a header, the target is a URI and the block has room for two
/// fields, a request whose first content type begins with the gRPC-Web
/// prefix is planned as Web; the upstream gets it with the content type of
/// native gRPC, without a content length, with the upstream as its `Host`
/// and every other field as it came.
pub proof fn lemma_web_request_goes_upstream(
    path: Seq<u8>,
    authority: Seq<u8>,
    before: Seq<(Seq<u8>, Seq<u8>)>,
    after: Seq<(Seq<u8>, Seq<u8>)>,
    plan: Result<ForwardPlan, ForwardError>,
    uri: http::Uri,
)
    requires
        is_planned(path, authority, before, after, plan),
        path != metrics_path(),
        is_field_value(authority),
        parsed_uri(upstream_uri(authority, path)) == Some(uri),
        first_of(values_of(before, content_type_name())) matches Some(content_type)
            && grpc_web_type().is_prefix_of(content_type),
        before.len() < SURE_ROOM,
    ensures
        plan == Ok::<ForwardPlan, ForwardError>(
            ForwardPlan::Upstream(Upstream { kind: GrpcKind::Web, uri }),
        ),
        values_of(after, content_type_name()) == seq![grpc_type()],
        values_of(after, content_length_name()).len() == 0,
        values_of(after, host_name()) == seq![authority],
        forall|n: Seq<u8>|
            n != content_type_name() && n != content_length_name() && n != host_name()
                ==> #[trigger] values_of(after, n) == values_of(before, n),
{
    reveal_strlit("host");
    reveal_strlit("content-type");
    reveal_strlit("content-length");
    assert(host_name().len() != content_type_name().len());
    assert(host_name().len() != content_length_name().len());
    assert(content_type_name().len() != content_length_name().len());
}

/// A native gRPC request goes upstream as it came. Where the authority fits
/// a header, the target is a URI and the block has room, a request whose
/// first content type begins with the gRPC prefix and not with the gRPC-Web
/// prefix is planned as Plain; the upstream gets it with the upstream as its
/// `Host` and every other field, the content type among them, as it came.
pub proof fn lemma_plain_request_goes_upstream(
    path: Seq<u8>,
    authority: Seq<u8>,
    before: Seq<(Seq<u8>, Seq<u8>)>,
    after: Seq<(Seq<u8>, Seq<u8>)>,
    plan: Result<ForwardPlan, ForwardError>,
    uri: http::Uri,
)
    requires
        is_planned(path, authority, before, after, plan),
        path != metrics_path(),
        is_field_value(authority),
        parsed_uri(upstream_uri(authority, path)) == Some(uri),
        first_of(values_of(before, content_type_name())) matches Some(content_type)
            && grpc_type().is_prefix_of(content_type) && !grpc_web_type().is_prefix_of(
            content_type,
        ),
        has_room(before),
    ensures
        plan == Ok::<ForwardPlan, ForwardError>(
            ForwardPlan::Upstream(Upstream { kind: GrpcKind::Plain, uri }),
        ),
        values_of(after, host_name()) == seq![authority],
        forall|n: Seq<u8>|
            n != host_name() ==> #[trigger] values_of(after, n) == values_of(before, n),
{
}

/// Where the authority fits a header, the target is a URI and the block has
/// room for two fields, a request is rejected exactly when it has no content
/// type or one that is neither gRPC nor gRPC-Web.
pub proof fn lemma_rejected_by_content_type(
    path: Seq<u8>,
    authority: Seq<u8>,
    before: Seq<(Seq<u8>, Seq<u8>)>,
    after: Seq<(Seq<u8>, Seq<u8>)>,
    plan: Result<ForwardPlan, ForwardError>,
)
    requires
        is_planned(path, authority, before, after, plan),
        path != metrics_path(),
        is_field_value(authority),
        parsed_uri(upstream_uri(authority, path)).is_some(),
        before.len() < SURE_ROOM,
    ensures
        plan.is_err() <==> routed(first_of(values_of(before, content_type_name()))).is_err(),
        plan.is_err() <==> (first_of(values_of(before, content_type_name())) matches Some(
            content_type,
        ) ==> !grpc_type().is_prefix_of(content_type)),
{
    let content_type = first_of(values_of(before, content_type_name()));
    if content_type.is_some() {
        lemma_classify_by_prefix(content_type.unwrap());
    }
}

/// Where a forward stands.
#[derive(Clone, Copy, Debug, PartialEq, Eq, Structural)]
pub enum ForwardStage {
    /// The connection to the upstream is being opened.
    Connecting,
    /// The connection is open and HTTP/2 is being set up on it.
    Handshaking,
    /// The request is on its way and the answer's head is awaited.
    Sending,
    /// The forward is over.
    Done,
}

/// How a forward ended.
#[derive(Clone, Copy, Debug, PartialEq, Eq, Structural)]
pub enum ForwardOutcome {
    /// The request was rejected before anything was sent.
    Rejected(ForwardError),
    /// No connection to the upstream could be opened.
    ConnectFailed,
    /// HTTP/2 could not be set up on the connection.
    HandshakeFailed,
    /// The request could not be sent, or no answer came.
    SendFailed,
    /// The upstream answered.
    Answered,
}

/// What the caller does next.
#[derive(Clone, Copy, Debug, PartialEq, Eq, Structural)]
pub enum ForwardStep {
    /// Answer with the metrics page. Nothing is recorded.
    ServeMetrics,
    /// Open a connection to the upstream.
    Connect,
    /// Set up HTTP/2 on the connection.
    Handshake,
    /// Send the request and await the head of the answer.
    Send,
    /// Record the request and its duration, then end the forward.
    Finish(ForwardOutcome),
}

/// The stage that follows `stage` when the work of `stage` went well or
/// failed.
pub open spec fn next_stage(stage: ForwardStage, ok: bool) -> ForwardStage {
    match stage {
        ForwardStage::Connecting => if ok {
            ForwardStage::Handshaking
        } else {
            ForwardStage::Done
        },
        ForwardStage::Handshaking => if ok {
            ForwardStage::Sending
        } else {
            ForwardStage::Done
        },
        ForwardStage::Sending => ForwardStage::Done,
        ForwardStage::Done => ForwardStage::Done,
    }
}

/// The step that is due when the work of `stage` went well or failed; none
/// once the forward is over.
pub open spec fn next_step(stage: ForwardStage, ok: bool) -> Option<ForwardStep> {
    match stage {
        ForwardStage::Connecting => if ok {
            Some(ForwardStep::Handshake)
        } else {
            Some(ForwardStep::Finish(ForwardOutcome::ConnectFailed))
        },
        ForwardStage::Handshaking => if ok {
            Some(ForwardStep::Send)
        } else {
            Some(ForwardStep::Finish(ForwardOutcome::HandshakeFailed))
        },
        ForwardStage::Sending => if ok {
            Some(ForwardStep::Finish(ForwardOutcome::Answered))
        } else {
            Some(ForwardStep::Finish(ForwardOutcome::SendFailed))
        },
        ForwardStage::Done => None,
    }
}

/// The first step of a forward by its plan, and the stage it opens.
pub open spec fn first_step(plan: Result<ForwardPlan, ForwardError>) -> (ForwardStage, ForwardStep) {
    match plan {
        Ok(ForwardPlan::Metrics) => (ForwardStage::Done, ForwardStep::ServeMetrics),
        Ok(ForwardPlan::Upstream(_)) => (ForwardStage::Connecting, ForwardStep::Connect),
        Err(e) => (ForwardStage::Done, ForwardStep::Finish(ForwardOutcome::Rejected(e))),
    }
}

/// How often a step asks for the request to be recorded.
pub open spec fn records(step: Option<ForwardStep>) -> nat {
    match step {
        Some(ForwardStep::Finish(_)) => 1,
        _ => 0,
    }
}

/// The stage of a forward after a run of reports.
pub open spec fn stage_after(stage: ForwardStage, reports: Seq<bool>) -> ForwardStage
    decreases reports.len(),
{
    if reports.len() == 0 {
        stage
    } else {
        stage_after(next_stage(stage, reports[0]), reports.drop_first())
    }
}

/// How often the steps of a run of reports ask for the request to be
/// recorded.
pub open spec fn records_during(stage: ForwardStage, reports: Seq<bool>) -> nat
    decreases reports.len(),
{
    if reports.len() == 0 {
        0
    } else {
        records(next_step(stage, reports[0])) + records_during(
            next_stage(stage, reports[0]),
            reports.drop_first(),
        )
    }
}

/// One forward, from the arrival of the request to its answer.
pub struct ForwardSession {
    stage: ForwardStage,
    upstream: Option<Upstream>,
}

impl ForwardSession {
    /// Where the forward stands.
    pub closed spec fn stage(&self) -> ForwardStage {
        self.stage
    }

    /// The request that goes upstream, if one does.
    pub closed spec fn upstream(&self) -> Option<Upstream> {
        self.upstream
    }

    /// Opens the forward of a request whose plan is made, and names its
    /// first step.
    pub fn open(plan: Result<ForwardPlan, ForwardError>) -> (opened: (ForwardSession, ForwardStep))
        ensures
            (opened.0.stage(), opened.1) == first_step(plan),
            opened.0.upstream() == match plan {
                Ok(ForwardPlan::Upstream(u)) => Some(u),
                _ => None,
            },
    {
        match plan {
            Ok(ForwardPlan::Metrics) => (
                ForwardSession { stage: ForwardStage::Done, upstream: None },
                ForwardStep::ServeMetrics,
            ),
            Ok(ForwardPlan::Upstream(u)) => (
                ForwardSession { stage: ForwardStage::Connecting, upstream: Some(u) },
                ForwardStep::Connect,
            ),
            Err(e) => (
                ForwardSession { stage: ForwardStage::Done, upstream: None },
                ForwardStep::Finish(ForwardOutcome::Rejected(e)),
            ),
        }
    }

    /// Takes the report on the step that was due and names the next one;
    /// `None` once the forward is over.
    pub fn advance(&mut self, ok: bool) -> (step: Option<ForwardStep>)
        ensures
            step == next_step(old(self).stage(), ok),
            final(self).stage() == next_stage(old(self).stage(), ok),
            final(self).upstream() == old(self).upstream(),
    {
        let step = match self.stage {
            ForwardStage::Connecting => if ok {
                Some(ForwardStep::Handshake)
            } else {
                Some(ForwardStep::Finish(ForwardOutcome::ConnectFailed))
            },
            ForwardStage::Handshaking => if ok {
                Some(ForwardStep::Send)
            } else {
                Some(ForwardStep::Finish(ForwardOutcome::HandshakeFailed))
            },
            ForwardStage::Sending => if ok {
                Some(ForwardStep::Finish(ForwardOutcome::Answered))
            } else {
                Some(ForwardStep::Finish(ForwardOutcome::SendFailed))
            },
            ForwardStage::Done => None,
        };
        self.stage = match self.stage {
            ForwardStage::Connecting => if ok {
                ForwardStage::Handshaking
            } else {
                ForwardStage::Done
            },
            ForwardStage::Handshaking => if ok {
                ForwardStage::Sending
            } else {
                ForwardStage::Done
            },
            ForwardStage::Sending => ForwardStage::Done,
            ForwardStage::Done => ForwardStage::Done,
        };
        step
    }

    /// Whether the forward is over.
    pub fn is_done(&self) -> (done: bool)
        ensures
            done == (self.stage() == ForwardStage::Done),
    {
        match self.stage {
            ForwardStage::Done => true,
            _ => false,
        }
    }

    /// The flavour of the request that goes upstream, if one does.
    pub fn kind(&self) -> (kind: Option<GrpcKind>)
        ensures
            kind == match self.upstream() {
                Some(u) => Some(u.kind),
                None => None,
            },
    {
        match &self.upstream {
            Some(u) => Some(u.kind),
            None => None,
        }
    }

    /// The URI of the request that goes upstream, if one does.
    pub fn uri(&self) -> (uri: Option<&http::Uri>)
        ensures
            uri.is_some() == self.upstream().is_some(),
            uri matches Some(target) ==> *target == self.upstream().unwrap().uri,
    {
        match &self.upstream {
            Some(u) => Some(&u.uri),
            None => None,
        }
    }
}

impl ForwardStep {
    /// Whether the step asks for the request to be recorded.
    pub fn asks_record(&self) -> (yes: bool)
        ensures
            yes == (records(Some(*self)) == 1),
    {
        match self {
            ForwardStep::Finish(_) => true,
            _ => false,
        }
    }
}

/// Once a forward is over, no step is due and nothing more is recorded.
pub proof fn lemma_done_is_final(reports: Seq<bool>)
    ensures
        stage_after(ForwardStage::Done, reports) == ForwardStage::Done,
        records_during(ForwardStage::Done, reports) == 0,
    decreases reports.len(),
{
    if reports.len() > 0 {
        lemma_done_is_final(reports.drop_first());
    }
}

/// A forward that is under way and comes to its end asks exactly once for
/// the request to be recorded; until it ends it does not ask at all.
pub proof fn lemma_records_once(stage: ForwardStage, reports: Seq<bool>)
    requires
        stage != ForwardStage::Done,
    ensures
        records_during(stage, reports) == if stage_after(stage, reports) == ForwardStage::Done {
            1nat
        } else {
            0nat
        },
    decreases reports.len(),
{
    if reports.len() > 0 {
        let next = next_stage(stage, reports[0]);
        if next == ForwardStage::Done {
            lemma_done_is_final(reports.drop_first());
        } else {
            lemma_records_once(next, reports.drop_first());
        }
    }
}

/// Every forward that comes to its end, whether the upstream answered or
/// not, asks exactly once for the request to be recorded, counting its first
/// step; a request for the metrics page is never recorded.
pub proof fn lemma_forward_recorded_once(
    plan: Result<ForwardPlan, ForwardError>,
    reports: Seq<bool>,
)
    requires
        stage_after(first_step(plan).0, reports) == ForwardStage::Done,
    ensures
        records(Some(first_step(plan).1)) + records_during(first_step(plan).0, reports) == if plan
            matches Ok(ForwardPlan::Metrics) {
            0nat
        } else {
            1nat
        },
{
    let (stage, step) = first_step(plan);
    if stage == ForwardStage::Done {
        lemma_done_is_final(reports);
    } else {
        lemma_records_once(stage, reports);
    }
}

} // verus!
