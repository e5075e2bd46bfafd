//! The proxy pipeline as a state machine. The caller does the outside
//! work (it buffers the inbound body and talks to the upstream) and hands
//! each outcome in as an event; the machine decides what happens next.

use crate::cache::all_valid;
use crate::cache::dumps;
use crate::cache::has_key;
use crate::cache::valid_entry;
use crate::cache::valid_status;
use crate::cache::Cache;
use crate::cache::CacheConfig;
use crate::cache::CacheObject;
use crate::cache::CacheObjectView;
use crate::cache::CacheReqParts;
use crate::cache::CacheReqPartsView;
use crate::cache::PairView;
use crate::config::Config;
use crate::config::Upstream;
use crate::config::UpstreamView;
use crate::fingerprint::fingerprint_input;
use crate::fingerprint::lemma_hex_lower_digits;
use crate::fingerprint::md5_digest;
use crate::headers::first_value;
use crate::headers::lemma_with_header_value;
use crate::headers::with_header;
use crate::headers::without;
use crate::headers::HeaderView;
use crate::headers::Headers;
use crate::transport::header_name_accepted;
use crate::transport::headers_accepted;
use crate::transport::lemma_hex_text_is_header_value;
use crate::transport::lemma_with_header_accepted;
use crate::transport::lemma_without_accepted;
use crate::transport::method_accepted;
use crate::transport::query_accepted;
use vstd::prelude::*;
use vstd::slice::slice_to_vec;
use vstd::string::StrSliceExecFns;
use vstd::string::StringExecFns;
use vstd::utf8::encode_utf8;

verus! {

/// The status of the response that reports a transport failure.
pub const INTERNAL_SERVER_ERROR: u16 = 500;

/// A response: the one an upstream gave, or the one the proxy gives.
#[derive(Debug, PartialEq, Eq)]
pub struct Response {
    pub status_code: u16,
    pub headers: Headers,
    pub body: Vec<u8>,
}

/// Mathematical model of a [`Response`].
pub ghost struct ResponseView {
    pub status_code: u16,
    pub headers: Seq<HeaderView>,
    pub body: Seq<u8>,
}

impl View for Response {
    type V = ResponseView;

    open spec fn view(&self) -> ResponseView {
        ResponseView { status_code: self.status_code, headers: self.headers@, body: self.body@ }
    }
}

/// The request that goes to the upstream on a miss.
#[derive(Debug, PartialEq, Eq)]
pub struct UpstreamRequest {
    pub method: String,
    pub url: String,
    pub headers: Headers,
    pub body: Vec<u8>,
}

/// Mathematical model of an [`UpstreamRequest`].
pub ghost struct UpstreamRequestView {
    pub method: Seq<char>,
    pub url: Seq<char>,
    pub headers: Seq<HeaderView>,
    pub body: Seq<u8>,
}

impl View for UpstreamRequest {
    type V = UpstreamRequestView;

    open spec fn view(&self) -> UpstreamRequestView {
        UpstreamRequestView {
            method: self.method@,
            url: self.url@,
            headers: self.headers@,
            body: self.body@,
        }
    }
}

/// Where the handling of one inbound request stands.
///
/// Between `Start` and what follows it the fingerprint is computed and
/// looked up. No outside work lies between the two, so that moment is no
/// state of its own.
#[derive(Debug, PartialEq, Eq)]
pub enum PipelineState {
    /// Nothing is known of the request yet.
    Start,
    /// The fingerprint was computed and found no entry; the upstream has
    /// been asked.
    MissForwarded { request: CacheReqParts, fingerprint: String },
    /// Answered from the store.
    HitServed,
    /// The upstream could not be reached; answered with the error.
    UpstreamError,
    /// The upstream's response was stored and passed on.
    StoredAndServed,
    /// The upstream's response was passed on and not stored.
    ServedUnstored,
    /// The inbound body could not be read; answered with the error.
    Failed,
}

/// Mathematical model of a [`PipelineState`].
pub ghost enum PipelineStateView {
    Start,
    MissForwarded { request: CacheReqPartsView, fingerprint: Seq<char> },
    HitServed,
    UpstreamError,
    StoredAndServed,
    ServedUnstored,
    Failed,
}

impl View for PipelineState {
    type V = PipelineStateView;

    open spec fn view(&self) -> PipelineStateView {
        match self {
            PipelineState::Start => PipelineStateView::Start,
            PipelineState::MissForwarded { request, fingerprint } => {
                PipelineStateView::MissForwarded { request: request@, fingerprint: fingerprint@ }
            },
            PipelineState::HitServed => PipelineStateView::HitServed,
            PipelineState::UpstreamError => PipelineStateView::UpstreamError,
            PipelineState::StoredAndServed => PipelineStateView::StoredAndServed,
            PipelineState::ServedUnstored => PipelineStateView::ServedUnstored,
            PipelineState::Failed => PipelineStateView::Failed,
        }
    }
}

/// What the outside work came to.
#[derive(Debug, PartialEq, Eq)]
pub enum PipelineEvent {
    /// The inbound request, its body fully buffered.
    RequestBuffered(CacheReqParts),
    /// The inbound body could not be read; the text says why.
    BodyReadFailed(String),
    /// The upstream answered; its body is fully buffered.
    UpstreamReplied(Response),
    /// The exchange with the upstream failed; the text says why.
    UpstreamFailed(String),
}

/// Mathematical model of a [`PipelineEvent`].
pub ghost enum PipelineEventView {
    RequestBuffered(CacheReqPartsView),
    BodyReadFailed(Seq<char>),
    UpstreamReplied(ResponseView),
    UpstreamFailed(Seq<char>),
}

impl View for PipelineEvent {
    type V = PipelineEventView;

    open spec fn view(&self) -> PipelineEventView {
        match self {
            PipelineEvent::RequestBuffered(request) => PipelineEventView::RequestBuffered(request@),
            PipelineEvent::BodyReadFailed(text) => PipelineEventView::BodyReadFailed(text@),
            PipelineEvent::UpstreamReplied(response) => PipelineEventView::UpstreamReplied(
                response@,
            ),
            PipelineEvent::UpstreamFailed(text) => PipelineEventView::UpstreamFailed(text@),
        }
    }
}

/// What the caller is to do next.
#[derive(Debug, PartialEq, Eq)]
pub enum PipelineAction {
    /// Send this request to the upstream and hand its outcome back.
    Forward(UpstreamRequest),
    /// Answer the inbound request with this response.
    Respond(Response),
    /// The event does not belong to the state: nothing is to be done.
    Nothing,
}

/// Mathematical model of a [`PipelineAction`].
pub ghost enum PipelineActionView {
    Forward(UpstreamRequestView),
    Respond(ResponseView),
    Nothing,
}

impl View for PipelineAction {
    type V = PipelineActionView;

    open spec fn view(&self) -> PipelineActionView {
        match self {
            PipelineAction::Forward(request) => PipelineActionView::Forward(request@),
            PipelineAction::Respond(response) => PipelineActionView::Respond(response@),
            PipelineAction::Nothing => PipelineActionView::Nothing,
        }
    }
}

/// The response that reports a transport failure: status 500, no headers,
/// the error's text as body.
pub open spec fn error_response(text: Seq<char>) -> ResponseView {
    ResponseView {
        status_code: INTERNAL_SERVER_ERROR,
        headers: Seq::empty(),
        body: encode_utf8(text),
    }
}

/// The response to a hit: what the entry holds, marked as a hit.
pub open spec fn hit_response(entry: CacheObjectView) -> ResponseView {
    ResponseView {
        status_code: entry.status_code,
        headers: with_header(entry.response_headers, "x-rockserver"@, "hit"@),
        body: entry.response_body,
    }
}

/// The URL of the forwarded request: scheme and authority of the upstream,
/// path and query of the inbound request.
pub open spec fn target_url(upstream: UpstreamView, request: CacheReqPartsView) -> Seq<char> {
    upstream.scheme + "://"@ + upstream.authority + request.path + match request.query {
        Some(query) => "?"@ + query,
        None => Seq::empty(),
    }
}

/// The request that is forwarded on a miss: the inbound method, headers
/// without `host`, and body, sent to the upstream.
pub open spec fn forward_request(
    upstream: UpstreamView,
    request: CacheReqPartsView,
) -> UpstreamRequestView {
    UpstreamRequestView {
        method: request.method,
        url: target_url(upstream, request),
        headers: without(request.headers, "host"@),
        body: request.body,
    }
}

/// The admission rule: a response is admitted to the store where its
/// status is below the threshold. Nothing else of the response is asked:
/// not its method, its size or its content type.
pub open spec fn admitted(config: Config, status_code: u16) -> bool {
    status_code < config.threshold_spec()
}

/// The upstream's headers with the fingerprint attached.
pub open spec fn identified_headers(fingerprint: Seq<char>, headers: Seq<HeaderView>) -> Seq<
    HeaderView,
> {
    with_header(headers, "x-rockserver-id"@, fingerprint)
}

/// The headers that are stored with an entry: the upstream's, with the
/// fingerprint attached and without `content-length`.
pub open spec fn captured_headers(fingerprint: Seq<char>, headers: Seq<HeaderView>) -> Seq<
    HeaderView,
> {
    without(identified_headers(fingerprint, headers), "content-length"@)
}

/// The entry that is built from a request and the upstream's response to
/// it, with an empty policy.
pub open spec fn stored_entry(
    request: CacheReqPartsView,
    fingerprint: Seq<char>,
    response: ResponseView,
) -> CacheObjectView {
    CacheObjectView {
        request,
        response_body: response.body,
        response_headers: captured_headers(fingerprint, response.headers),
        status_code: response.status_code,
        config: Seq::empty(),
    }
}

/// Whether the upstream's response to a request is stored: it is where
/// the admission rule admits it and the entry built from it is valid, so
/// that the store holds nothing that a restore would refuse. An entry is
/// valid whenever the transport gave the request and the response and the
/// status is one of 100 to 599.
pub open spec fn stores(
    config: Config,
    request: CacheReqPartsView,
    fingerprint: Seq<char>,
    response: ResponseView,
) -> bool {
    admitted(config, response.status_code) && valid_entry(
        stored_entry(request, fingerprint, response),
    )
}

/// The response to a miss: the upstream's status and body; its headers
/// with the fingerprint attached, without `content-length` where the
/// response is stored, and marked as a miss.
pub open spec fn miss_response(
    stored: bool,
    fingerprint: Seq<char>,
    response: ResponseView,
) -> ResponseView {
    ResponseView {
        status_code: response.status_code,
        headers: with_header(
            if stored {
                captured_headers(fingerprint, response.headers)
            } else {
                identified_headers(fingerprint, response.headers)
            },
            "x-rockserver"@,
            "miss"@,
        ),
        body: response.body,
    }
}

/// Whether a request with this fingerprint is answered from the store:
/// the cache layer is on and an entry is held. With the layer off every
/// request is forwarded; what comes back is stored all the same.
pub open spec fn served_from_store(
    config: Config,
    content: Map<Seq<char>, CacheObjectView>,
    fingerprint: Seq<char>,
) -> bool {
    config.enabled_spec() && content.contains_key(fingerprint)
}

/// One step of the pipeline: from the state, the event and the store's
/// content to the next state, the action and the store's new content.
///
/// A buffered request is fingerprinted and either served from the store
/// or forwarded. The upstream's answer is stored where [`stores`] says so,
/// and passed on either way. A transport failure is answered
/// with status 500 and stores nothing. An event that does not belong to
/// the state changes nothing.
pub open spec fn step(
    config: Config,
    upstream: UpstreamView,
    content: Map<Seq<char>, CacheObjectView>,
    state: PipelineStateView,
    event: PipelineEventView,
) -> (PipelineStateView, PipelineActionView, Map<Seq<char>, CacheObjectView>) {
    match (state, event) {
        (PipelineStateView::Start, PipelineEventView::RequestBuffered(request)) => {
            let fingerprint = request.fingerprint();
            if served_from_store(config, content, fingerprint) {
                (
                    PipelineStateView::HitServed,
                    PipelineActionView::Respond(hit_response(content[fingerprint])),
                    content,
                )
            } else {
                (
                    PipelineStateView::MissForwarded { request, fingerprint },
                    PipelineActionView::Forward(forward_request(upstream, request)),
                    content,
                )
            }
        },
        (PipelineStateView::Start, PipelineEventView::BodyReadFailed(text)) => (
            PipelineStateView::Failed,
            PipelineActionView::Respond(error_response(text)),
            content,
        ),
        (
            PipelineStateView::MissForwarded { request, fingerprint },
            PipelineEventView::UpstreamFailed(text),
        ) => (
            PipelineStateView::UpstreamError,
            PipelineActionView::Respond(error_response(text)),
            content,
        ),
        (
            PipelineStateView::MissForwarded { request, fingerprint },
            PipelineEventView::UpstreamReplied(response),
        ) => {
            let stored = stores(config, request, fingerprint, response);
            let answer = PipelineActionView::Respond(miss_response(stored, fingerprint, response));
            if stored {
                (
                    PipelineStateView::StoredAndServed,
                    answer,
                    content.insert(fingerprint, stored_entry(request, fingerprint, response)),
                )
            } else {
                (PipelineStateView::ServedUnstored, answer, content)
            }
        },
        _ => (state, PipelineActionView::Nothing, content),
    }
}

/// Puts a response together from its parts.
pub fn make_resp(headers: Headers, status_code: u16, body: Vec<u8>) -> (r: Response)
    ensures
        r@ == (ResponseView { status_code, headers: headers@, body: body@ }),
{
    Response { status_code, headers, body }
}

/// The response that reports a transport failure to the caller.
pub fn make_error_resp(text: &str) -> (r: Response)
    ensures
        r@ == error_response(text@),
{
    make_resp(Headers::new(), INTERNAL_SERVER_ERROR, text.as_bytes_vec())
}

/// The response that serves a stored entry: its status, headers and body,
/// marked as a hit.
pub fn make_hit_resp(entry: CacheObject) -> (r: Response)
    ensures
        r@ == hit_response(entry@),
{
    let mut headers = entry.response_headers;
    headers.insert("x-rockserver".to_owned(), "hit".to_owned());
    make_resp(headers, entry.status_code, entry.response_body)
}

/// The request that is sent to the upstream for a missed inbound request.
pub fn make_forward_request(upstream: &Upstream, request: &CacheReqParts) -> (r: UpstreamRequest)
    ensures
        r@ == forward_request(upstream@, request@),
{
    let mut url = upstream.scheme.clone();
    url.append("://");
    url.append(upstream.authority.as_str());
    url.append(request.path.as_str());
    match &request.query {
        Some(query) => {
            url.append("?");
            url.append(query.as_str());
        },
        None => {},
    }
    proof {
        assert(url@ =~= target_url(upstream@, request@));
    }
    let mut headers = request.headers.clone();
    headers.remove("host");
    UpstreamRequest {
        method: request.method.clone(),
        url,
        headers,
        body: slice_to_vec(request.body.as_slice()),
    }
}

/// Takes the first event of a request: fingerprints a buffered request and
/// serves it from the store or has it forwarded. The store is only read.
///
/// The result is that of [`step`] out of `Start`.
pub fn begin_request(config: &Config, upstream: &Upstream, cache: &Cache, event: PipelineEvent) -> (r:
    (PipelineState, PipelineAction))
    ensures
        (r.0@, r.1@, cache@) == step(
            *config,
            upstream@,
            cache@,
            PipelineStateView::Start,
            event@,
        ),
{
    match event {
        PipelineEvent::RequestBuffered(request) => {
            let (found, request, fingerprint) = CacheObject::find_by_req(cache, request);
            match found {
                Some(entry) if config.cache_enabled() => {
                    (PipelineState::HitServed, PipelineAction::Respond(make_hit_resp(entry)))
                },
                _ => {
                    let outbound = make_forward_request(upstream, &request);
                    (
                        PipelineState::MissForwarded { request, fingerprint },
                        PipelineAction::Forward(outbound),
                    )
                },
            }
        },
        PipelineEvent::BodyReadFailed(text) => {
            (PipelineState::Failed, PipelineAction::Respond(make_error_resp(text.as_str())))
        },
        _ => (PipelineState::Start, PipelineAction::Nothing),
    }
}

/// Handles one event of the pipeline and says what is to be done next.
///
/// The result and the store's new content are exactly those of [`step`].
/// A store whose entries are valid stays one.
pub fn proxy_handler(
    config: &Config,
    upstream: &Upstream,
    cache: &mut Cache,
    state: PipelineState,
    event: PipelineEvent,
) -> (r: (PipelineState, PipelineAction))
    ensures
        (r.0@, r.1@, final(cache)@) == step(*config, upstream@, old(cache)@, state@, event@),
        old(cache).wf() ==> final(cache).wf(),
{
    match (state, event) {
        (PipelineState::Start, event) => begin_request(config, upstream, cache, event),
        (PipelineState::MissForwarded { .. }, PipelineEvent::UpstreamFailed(text)) => {
            (PipelineState::UpstreamError, PipelineAction::Respond(make_error_resp(text.as_str())))
        },
        (
            PipelineState::MissForwarded { request, fingerprint },
            PipelineEvent::UpstreamReplied(response),
        ) => {
            let status_code = response.status_code;
            let body = response.body;
            let mut headers = response.headers;
            headers.insert("x-rockserver-id".to_owned(), fingerprint.clone());
            if status_code < config.threshold() {
                let mut captured = headers.clone();
                captured.remove("content-length");
                let entry = CacheObject {
                    request,
                    response_body: slice_to_vec(body.as_slice()),
                    response_headers: captured.clone(),
                    status_code,
                    config: CacheConfig::default(),
                };
                if entry.is_valid() {
                    entry.add_record_by_md5(cache, fingerprint);
                    captured.insert("x-rockserver".to_owned(), "miss".to_owned());
                    return (
                        PipelineState::StoredAndServed,
                        PipelineAction::Respond(make_resp(captured, status_code, body)),
                    );
                }
            }
            headers.insert("x-rockserver".to_owned(), "miss".to_owned());
            (
                PipelineState::ServedUnstored,
                PipelineAction::Respond(make_resp(headers, status_code, body)),
            )
        },
        (state, _) => (state, PipelineAction::Nothing),
    }
}

/// With the cache layer on: once a miss has stored its response, a request
/// with the same method, path and body is answered from the store: with the stored status and
/// body and the header `x-rockserver: hit`, and without a further request
/// to the upstream. The store is left as it was.
pub proof fn lemma_hit_after_store(
    config: Config,
    upstream: UpstreamView,
    content: Map<Seq<char>, CacheObjectView>,
    first: CacheReqPartsView,
    response: ResponseView,
    second: CacheReqPartsView,
)
    requires
        first.method == second.method,
        first.path == second.path,
        first.body == second.body,
        config.enabled_spec(),
        stores(config, first, first.fingerprint(), response),
    ensures
        ({
            let waiting = PipelineStateView::MissForwarded {
                request: first,
                fingerprint: first.fingerprint(),
            };
            let stored = step(
                config,
                upstream,
                content,
                waiting,
                PipelineEventView::UpstreamReplied(response),
            );
            let again = step(
                config,
                upstream,
                stored.2,
                PipelineStateView::Start,
                PipelineEventView::RequestBuffered(second),
            );
            &&& stored.0 == PipelineStateView::StoredAndServed
            &&& again.0 == PipelineStateView::HitServed
            &&& again.1 matches PipelineActionView::Respond(answer) && answer.status_code
                == response.status_code && answer.body == response.body && first_value(
                answer.headers,
                "x-rockserver"@,
            ) == Some("hit"@)
            &&& again.2 == stored.2
        }),
{
    let entry = stored_entry(first, first.fingerprint(), response);
    lemma_with_header_value(entry.response_headers, "x-rockserver"@, "hit"@);
}

/// The admission threshold, whether the cache layer is on or off: the
/// upstream's response is passed on with its status and body whatever its
/// status. Where the status is below the threshold, the entry built from
/// request and response is stored under the request's fingerprint, with
/// the request, the status, the body and an empty policy, and every other
/// fingerprint is as before; this is owed for every valid entry. Where the
/// status is at or above the threshold the store is left as it was, so
/// that a fingerprint that was absent is absent from every later dump.
pub proof fn lemma_admission_threshold(
    config: Config,
    upstream: UpstreamView,
    content: Map<Seq<char>, CacheObjectView>,
    request: CacheReqPartsView,
    response: ResponseView,
)
    ensures
        ({
            let fingerprint = request.fingerprint();
            let entry = stored_entry(request, fingerprint, response);
            let next = step(
                config,
                upstream,
                content,
                PipelineStateView::MissForwarded { request, fingerprint },
                PipelineEventView::UpstreamReplied(response),
            );
            &&& next.1 matches PipelineActionView::Respond(answer) && answer.status_code
                == response.status_code && answer.body == response.body
            &&& entry.request == request && entry.status_code == response.status_code
                && entry.response_body == response.body && entry.config.len() == 0
            &&& response.status_code < config.threshold_spec() && valid_entry(entry) ==> next.0
                == PipelineStateView::StoredAndServed && next.2 == content.insert(
                fingerprint,
                entry,
            )
            &&& response.status_code >= config.threshold_spec() ==> next.0
                == PipelineStateView::ServedUnstored && next.2 == content
            &&& response.status_code >= config.threshold_spec() && !content.contains_key(
                fingerprint,
            ) ==> forall|dump: Seq<PairView>| #[trigger]
                dumps(dump, next.2) ==> !has_key(dump, fingerprint)
        }),
{
}

/// What the pipeline builds from a request and a response that the
/// transport gave is a valid entry: the status is one of 100 to 599, the
/// transport takes method, headers and query, and it takes the name of the
/// header that carries the fingerprint. Such a response is stored whenever
/// its status is below the threshold.
pub proof fn lemma_stored_entry_valid(
    config: Config,
    request: CacheReqPartsView,
    response: ResponseView,
)
    ensures
        valid_status(response.status_code) && method_accepted(request.method) && headers_accepted(
            request.headers,
        ) && query_accepted(request.path, request.query) && headers_accepted(response.headers)
            && header_name_accepted("x-rockserver-id"@) ==> valid_entry(
            stored_entry(request, request.fingerprint(), response),
        ) && stores(config, request, request.fingerprint(), response) == admitted(
            config,
            response.status_code,
        ),
{
    let fingerprint = request.fingerprint();
    if headers_accepted(response.headers) && header_name_accepted("x-rockserver-id"@) {
        lemma_hex_lower_digits(md5_digest(fingerprint_input(request.method, request.path, request.body)));
        lemma_hex_text_is_header_value(fingerprint);
        lemma_with_header_accepted(response.headers, "x-rockserver-id"@, fingerprint);
        lemma_without_accepted(
            identified_headers(fingerprint, response.headers),
            "content-length"@,
        );
    }
}

/// The store holds valid entries after every step if it did before.
pub proof fn lemma_step_keeps_valid(
    config: Config,
    upstream: UpstreamView,
    content: Map<Seq<char>, CacheObjectView>,
    state: PipelineStateView,
    event: PipelineEventView,
)
    requires
        all_valid(content),
    ensures
        all_valid(step(config, upstream, content, state, event).2),
{
}

/// A transport failure, on either side, stores nothing and is answered
/// with status 500 and the error's text.
pub proof fn lemma_failure_never_stored(
    config: Config,
    upstream: UpstreamView,
    content: Map<Seq<char>, CacheObjectView>,
    request: CacheReqPartsView,
    text: Seq<char>,
)
    ensures
        step(
            config,
            upstream,
            content,
            PipelineStateView::Start,
            PipelineEventView::BodyReadFailed(text),
        ) == (
            PipelineStateView::Failed,
            PipelineActionView::Respond(error_response(text)),
            content,
        ),
        step(
            config,
            upstream,
            content,
            PipelineStateView::MissForwarded { request, fingerprint: request.fingerprint() },
            PipelineEventView::UpstreamFailed(text),
        ) == (
            PipelineStateView::UpstreamError,
            PipelineActionView::Respond(error_response(text)),
            content,
        ),
{
}

/// A state after which nothing more happens.
pub open spec fn is_terminal(state: PipelineStateView) -> bool {
    !(state is Start) && !(state is MissForwarded)
}

/// The shape of the machine. From `Start` it goes to a hit, to a forwarded
/// miss or to a failure; from a forwarded miss to one of the three ways a
/// miss ends; from there nowhere. The upstream is asked only on the way
/// into a forwarded miss, and the store changes only where a response is
/// stored.
pub proof fn lemma_transitions(
    config: Config,
    upstream: UpstreamView,
    content: Map<Seq<char>, CacheObjectView>,
    state: PipelineStateView,
    event: PipelineEventView,
)
    ensures
        ({
            let next = step(config, upstream, content, state, event);
            &&& state is Start ==> next.0 is Start || next.0 is HitServed || next.0 is MissForwarded
                || next.0 is Failed
            &&& state is MissForwarded ==> next.0 == state || next.0 is UpstreamError || next.0
                is StoredAndServed || next.0 is ServedUnstored
            &&& is_terminal(state) ==> next == (state, PipelineActionView::Nothing, content)
            &&& next.1 is Forward ==> state is Start && next.0 is MissForwarded
            &&& next.1 is Respond ==> is_terminal(next.0)
            &&& next.2 != content ==> next.0 is StoredAndServed
        }),
{
}

} // verus!
