//! Speaking with a provider: what is sent, and how its answer is read as it comes.

use crate::config::model::{ApiKind, Header, HeaderView, ResolvedModel, ResolvedModelView};
use crate::json::{Json, JsonValue};
use crate::model::collector::{
    collected, payload_taken, CollectorView, ResponseCollector,
};
use crate::model::message::{
    ModelEvent, ModelEventView, ModelRequest, ModelRequestView, ModelResponse, ProviderError,
    ProviderErrorView,
};
use crate::model::payload::{parse_payload, payload_text_meaning};
use crate::model::requests::{endpoint_of, request_body, request_for};
use crate::model::sse::{
    joined_lines, line_read, lines_read, utf8_error_text, SseOutcome, SseParser, SseView,
};
use crate::text::{ascii_lowered, concat, concat3, quoted, quoted_text, same_text, trim, trimmed};
use vstd::prelude::*;

verus! {

// ---- what is sent ----

/// A character that may stand in the name of a header: a letter or digit of ASCII, or one of the
/// marks of a token.
pub open spec fn is_token_char(c: char) -> bool {
    ||| 'a' <= c <= 'z'
    ||| 'A' <= c <= 'Z'
    ||| '0' <= c <= '9'
    ||| c == '!'
    ||| '#' <= c <= '\''
    ||| c == '*'
    ||| c == '+'
    ||| c == '-'
    ||| c == '.'
    ||| '^' <= c <= '`'
    ||| c == '|'
    ||| c == '~'
}

/// The longest name that a header can have.
pub const MAX_HEADER_NAME_LEN: usize = 65535;

/// A header can have this name: a token that is neither empty nor too long.
pub open spec fn is_header_name(text: Seq<char>) -> bool {
    &&& 0 < text.len() <= MAX_HEADER_NAME_LEN
    &&& forall|i: int| 0 <= i < text.len() ==> is_token_char(#[trigger] text[i])
}

/// `reqwest::header::HeaderName::try_from`: a token of at most the longest length is taken, in
/// small letters; of any other text the error's own message is returned.
#[verifier::external_body]
fn header_name(text: &str) -> (res: Result<String, String>)
    ensures
        match res {
            Ok(name) => is_header_name(text@) && name@ == ascii_lowered(text@),
            Err(message) => !is_header_name(text@) && message@ == "invalid HTTP header name"@,
        },
{
    reqwest::header::HeaderName::try_from(text).map(|name| name.as_str().to_owned()).map_err(
        |error| error.to_string(),
    )
}

/// A header can have this value: tabs are its only control characters.
pub open spec fn is_header_value(text: Seq<char>) -> bool {
    forall|i: int|
        0 <= i < text.len() ==> ((#[trigger] text[i]) >= ' ' && text[i] != '\u{7f}') || text[i]
            == '\t'
}

/// `reqwest::header::HeaderValue::try_from`: the message of the error, where the text can be no
/// value.
#[verifier::external_body]
fn header_value_error(text: &String) -> (res: Option<String>)
    ensures
        match res {
            None => is_header_value(text@),
            Some(message) => !is_header_value(text@) && message@
                == "failed to parse header value"@,
        },
{
    reqwest::header::HeaderValue::try_from(text).err().map(|error| error.to_string())
}

/// The error that a configured header is, where it is one.
pub open spec fn header_error(header: HeaderView) -> Option<Seq<char>> {
    if !is_header_name(header.name) {
        Some(
            "invalid configured header "@ + quoted_text(header.name) + (": "@
                + "invalid HTTP header name"@),
        )
    } else if !is_header_value(header.value) {
        Some(
            "invalid configured value for header "@ + ascii_lowered(header.name) + (": "@
                + "failed to parse header value"@),
        )
    } else {
        None
    }
}

/// A header as it is sent.
pub open spec fn sent_header(header: HeaderView) -> HeaderView {
    HeaderView { name: ascii_lowered(header.name), value: header.value }
}

/// The first of the headers that is an error.
pub open spec fn first_header_error(headers: Seq<HeaderView>) -> Option<Seq<char>>
    decreases headers.len(),
{
    if headers.len() == 0 {
        None
    } else {
        match first_header_error(headers.drop_last()) {
            Some(message) => Some(message),
            None => header_error(headers.last()),
        }
    }
}

/// The headers that go with the key, where the model wants it in a header.
pub open spec fn key_headers(model: ResolvedModelView) -> Seq<HeaderView> {
    match model.api_key {
        Some(key) => if model.auth_header {
            seq![HeaderView { name: "authorization"@, value: "Bearer "@ + key }]
        } else {
            Seq::empty()
        },
        None => Seq::empty(),
    }
}

/// The headers of every request.
pub open spec fn fixed_headers() -> Seq<HeaderView> {
    seq![
        HeaderView { name: "content-type"@, value: "application/json"@ },
        HeaderView { name: "accept"@, value: "text/event-stream"@ },
    ]
}

/// The headers of a request.
pub open spec fn request_headers(model: ResolvedModelView) -> Seq<HeaderView> {
    fixed_headers() + model.headers.map_values(|header: HeaderView| sent_header(header))
        + key_headers(model)
}

/// A request as it is sent.
#[derive(Debug, PartialEq, Eq)]
pub struct HttpRequest {
    pub endpoint: String,
    pub headers: Vec<Header>,
    pub body: JsonValue,
}

/// What a [`HttpRequest`] holds.
#[verifier::ext_equal]
pub struct HttpRequestView {
    pub endpoint: Seq<char>,
    pub headers: Seq<HeaderView>,
    pub body: Json,
}

impl DeepView for HttpRequest {
    type V = HttpRequestView;

    open spec fn deep_view(&self) -> HttpRequestView {
        HttpRequestView {
            endpoint: self.endpoint@,
            headers: self.headers.deep_view(),
            body: self.body.deep_view(),
        }
    }
}

/// What is sent for a request, or the configured header that stands against it.
pub open spec fn http_request_of(model: ResolvedModelView, request: ModelRequestView) -> Result<
    HttpRequestView,
    ProviderErrorView,
> {
    match first_header_error(model.headers) {
        Some(message) => Err(ProviderErrorView::Failed { message }),
        None => Ok(
            HttpRequestView {
                endpoint: endpoint_of(model),
                headers: request_headers(model),
                body: request_body(model, request),
            },
        ),
    }
}

fn push_header(headers: &mut Vec<Header>, name: &str, value: &str)
    ensures
        final(headers).deep_view() == old(headers).deep_view().push(
            HeaderView { name: name@, value: value@ },
        ),
{
    let ghost before = headers.deep_view();
    headers.push(Header { name: name.to_owned(), value: value.to_owned() });
    assert(headers.deep_view() =~= before.push(HeaderView { name: name@, value: value@ }));
}

fn check_header(header: &Header) -> (res: Result<Header, String>)
    ensures
        match res {
            Ok(sent) => header_error(header.deep_view()) is None && sent.deep_view()
                == sent_header(header.deep_view()),
            Err(message) => header_error(header.deep_view()) == Some(message@),
        },
{
    let name = match header_name(&header.name) {
        Ok(name) => name,
        Err(error) => {
            return Err(
                concat3("invalid configured header ", &quoted(&header.name), &concat(": ", &error)),
            );
        },
    };
    match header_value_error(&header.value) {
        Some(error) => Err(
            concat3("invalid configured value for header ", &name, &concat(": ", &error)),
        ),
        None => Ok(Header { name, value: header.value.clone() }),
    }
}

proof fn lemma_header_error_stays(headers: Seq<HeaderView>, n: int)
    requires
        0 <= n <= headers.len(),
        first_header_error(headers.take(n)) is Some,
    ensures
        first_header_error(headers) == first_header_error(headers.take(n)),
    decreases headers.len(),
{
    if n == headers.len() {
        assert(headers.take(n) =~= headers);
    } else {
        assert(headers.drop_last().take(n) =~= headers.take(n));
        lemma_header_error_stays(headers.drop_last(), n);
    }
}

/// What is sent for a request, or the configured header that stands against it.
pub fn http_request(model: &ResolvedModel, request: &ModelRequest) -> (res: Result<
    HttpRequest,
    ProviderError,
>)
    ensures
        match (res, http_request_of(model.deep_view(), request.deep_view())) {
            (Ok(sent), Ok(expected)) => sent.deep_view() == expected,
            (Err(error), Err(expected)) => error.deep_view() == expected,
            _ => false,
        },
{
    let (endpoint, body) = request_for(model, request);
    let ghost all = model.headers.deep_view();
    let ghost sent = all.map_values(|header: HeaderView| sent_header(header));
    let mut headers: Vec<Header> = Vec::new();
    push_header(&mut headers, "content-type", "application/json");
    push_header(&mut headers, "accept", "text/event-stream");
    let mut i: usize = 0;
    assert(all.take(0) =~= Seq::<HeaderView>::empty());
    assert(headers.deep_view() =~= fixed_headers() + sent.take(0));
    while i < model.headers.len()
        invariant
            i <= model.headers.len(),
            all == model.headers.deep_view(),
            sent == all.map_values(|header: HeaderView| sent_header(header)),
            first_header_error(all.take(i as int)) is None,
            headers.deep_view() == fixed_headers() + sent.take(i as int),
        decreases model.headers.len() - i,
    {
        proof {
            assert(all.take(i + 1).drop_last() =~= all.take(i as int));
            assert(all.take(i + 1).last() == model.headers@[i as int].deep_view());
        }
        let ghost before = headers.deep_view();
        match check_header(&model.headers[i]) {
            Ok(header) => {
                headers.push(header);
                assert(headers.deep_view() =~= before.push(sent[i as int]));
                assert(headers.deep_view() =~= fixed_headers() + sent.take(i + 1));
            },
            Err(message) => {
                proof {
                    lemma_header_error_stays(all, i + 1);
                }
                return Err(ProviderError::Failed { message });
            },
        }
        i += 1;
    }
    assert(all.take(i as int) =~= all);
    assert(sent.take(i as int) =~= sent);
    let ghost before = headers.deep_view();
    if model.auth_header {
        if let Some(key) = &model.api_key {
            push_header(&mut headers, "authorization", &concat("Bearer ", key));
        }
    }
    assert(headers.deep_view() =~= before + key_headers(model.deep_view()));
    Ok(HttpRequest { endpoint, headers, body })
}

// ---- what comes back ----

/// What a batch of payloads makes of a collector, and which events it brings. The outcome says
/// whether the stream is done.
#[verifier::ext_equal]
pub struct ProcessedView {
    pub collector: CollectorView,
    pub events: Seq<ModelEventView>,
    pub outcome: Result<bool, ProviderErrorView>,
}

/// The payload that ends a stream.
pub open spec fn is_done_mark(payload: Seq<char>) -> bool {
    trimmed(payload) == "[DONE]"@
}

/// Payloads are taken in order, up to the mark of the end or the first that is an error.
pub open spec fn payloads_processed(
    c: CollectorView,
    api: ApiKind,
    payloads: Seq<Seq<char>>,
) -> ProcessedView
    decreases payloads.len(),
{
    if payloads.len() == 0 {
        ProcessedView { collector: c, events: Seq::empty(), outcome: Ok(false) }
    } else if is_done_mark(payloads[0]) {
        ProcessedView { collector: c, events: Seq::empty(), outcome: Ok(true) }
    } else {
        match payload_text_meaning(api, payloads[0]) {
            Err(error) => ProcessedView {
                collector: c,
                events: Seq::empty(),
                outcome: Err(error),
            },
            Ok(payload) => {
                let rest = payloads_processed(
                    payload_taken(c, payload),
                    api,
                    payloads.drop_first(),
                );
                ProcessedView { events: payload.events + rest.events, ..rest }
            },
        }
    }
}

/// The events that bytes brought, to be passed on in order; then the outcome counts, which says
/// whether the stream is done.
#[derive(Debug, PartialEq, Eq)]
pub struct StreamBatch {
    pub events: Vec<ModelEvent>,
    pub outcome: Result<bool, ProviderError>,
}

/// A batch and a collector are what was to be made of the payloads.
pub open spec fn batch_is(batch: StreamBatch, collector: CollectorView, expected: ProcessedView) ->
    bool {
    &&& collector == expected.collector
    &&& batch.events.deep_view() == expected.events
    &&& match (batch.outcome, expected.outcome) {
        (Ok(done), Ok(expected)) => done == expected,
        (Err(error), Err(expected)) => error.deep_view() == expected,
        _ => false,
    }
}

/// Takes payloads in order, up to the mark of the end or the first that is an error.
pub fn process_payloads(
    collector: &mut ResponseCollector,
    payloads: &Vec<String>,
    api: ApiKind,
) -> (res: StreamBatch)
    requires
        old(collector).wf(),
    ensures
        final(collector).wf(),
        batch_is(
            res,
            final(collector).deep_view(),
            payloads_processed(old(collector).deep_view(), api, payloads.deep_view()),
        ),
{
    let ghost all = payloads.deep_view();
    let ghost start = collector.deep_view();
    let mut events: Vec<ModelEvent> = Vec::new();
    let mut i: usize = 0;
    proof {
        assert(all.skip(0) =~= all);
        let first = payloads_processed(start, api, all);
        assert(events.deep_view() + first.events =~= first.events);
    }
    while i < payloads.len()
        invariant
            i <= payloads.len(),
            collector.wf(),
            all == payloads.deep_view(),
            start == old(collector).deep_view(),
            payloads_processed(start, api, all) == ({
                let rest = payloads_processed(collector.deep_view(), api, all.skip(i as int));
                ProcessedView { events: events.deep_view() + rest.events, ..rest }
            }),
        decreases payloads.len() - i,
    {
        let ghost rest = all.skip(i as int);
        let ghost before = events.deep_view();
        proof {
            assert(rest[0] == payloads@[i as int]@);
            assert(rest.drop_first() =~= all.skip(i + 1));
            assert(before + Seq::<ModelEventView>::empty() =~= before);
        }
        if same_text(&trim(&payloads[i]), "[DONE]") {
            return StreamBatch { events, outcome: Ok(true) };
        }
        match parse_payload(api, &payloads[i]) {
            Err(error) => {
                return StreamBatch { events, outcome: Err(error) };
            },
            Ok(payload) => {
                collector.take_payload(&payload);
                let ghost taken = payload.deep_view();
                let mut more = payload.events;
                events.append(&mut more);
                proof {
                    assert(events.deep_view() =~= before + taken.events);
                    let last = payloads_processed(collector.deep_view(), api, all.skip(i + 1));
                    assert(before + (taken.events + last.events) =~= (before + taken.events)
                        + last.events);
                }
            },
        }
        i += 1;
    }
    proof {
        assert(all.skip(i as int) =~= Seq::<Seq<char>>::empty());
        assert(events.deep_view() + Seq::<ModelEventView>::empty() =~= events.deep_view());
    }
    StreamBatch { events, outcome: Ok(false) }
}

/// The answer to a request as it comes.
pub struct ResponseStream {
    api: ApiKind,
    parser: SseParser,
    collector: ResponseCollector,
}

/// What a [`ResponseStream`] holds.
#[verifier::ext_equal]
pub struct ResponseStreamView {
    pub api: ApiKind,
    pub parser: SseView,
    pub collector: CollectorView,
}

impl DeepView for ResponseStream {
    type V = ResponseStreamView;

    closed spec fn deep_view(&self) -> ResponseStreamView {
        ResponseStreamView {
            api: self.api,
            parser: self.parser.deep_view(),
            collector: self.collector.deep_view(),
        }
    }
}

/// What the lines that were read make of a collector.
pub open spec fn outcome_processed(c: CollectorView, api: ApiKind, read: SseOutcome) ->
    ProcessedView {
    match read.broken {
        Some(line) => ProcessedView {
            collector: c,
            events: Seq::empty(),
            outcome: Err(ProviderErrorView::Malformed { message: utf8_error_text(line) }),
        },
        None => payloads_processed(c, api, read.payloads),
    }
}

/// What is left of a stream at its end: the last line, and a payload of the data lines.
pub open spec fn rest_read(s: SseView) -> SseOutcome {
    let read = if s.buffer.len() == 0 {
        SseOutcome {
            buffer: Seq::empty(),
            data_lines: s.data_lines,
            payloads: Seq::empty(),
            broken: None,
        }
    } else {
        line_read(s.data_lines, s.buffer, Seq::empty())
    };
    SseOutcome {
        payloads: read.payloads + (if read.data_lines.len() == 0 {
            Seq::empty()
        } else {
            seq![joined_lines(read.data_lines)]
        }),
        ..read
    }
}

impl ResponseStream {
    /// What was collected so far is in order.
    pub closed spec fn wf(&self) -> bool {
        self.collector.wf()
    }

    /// Nothing has come yet.
    pub fn new(api: ApiKind) -> (res: Self)
        ensures
            res.wf(),
            res.deep_view() == (ResponseStreamView {
                api,
                parser: SseView { buffer: Seq::empty(), data_lines: Seq::empty() },
                collector: CollectorView {
                    items: Seq::empty(),
                    unindexed: Seq::empty(),
                    stop_reason: None,
                    terminal_seen: false,
                    usage: None,
                },
            }),
    {
        ResponseStream {
            api,
            parser: SseParser::default(),
            collector: ResponseCollector::default(),
        }
    }

    /// Takes the next bytes of the answer.
    pub fn feed(&mut self, bytes: &[u8]) -> (res: StreamBatch)
        requires
            old(self).wf(),
        ensures
            final(self).wf(),
            ({
                let s = old(self).deep_view();
                let read = lines_read(s.parser.data_lines, s.parser.buffer + bytes@);
                &&& final(self).deep_view().api == s.api
                &&& final(self).deep_view().parser == (SseView {
                    buffer: read.buffer,
                    data_lines: read.data_lines,
                })
                &&& batch_is(
                    res,
                    final(self).deep_view().collector,
                    outcome_processed(s.collector, s.api, read),
                )
            }),
    {
        match self.parser.feed(bytes) {
            Ok(payloads) => process_payloads(&mut self.collector, &payloads, self.api),
            Err(error) => {
                let events: Vec<ModelEvent> = Vec::new();
                assert(events.deep_view() =~= Seq::<ModelEventView>::empty());
                StreamBatch { events, outcome: Err(error) }
            },
        }
    }

    /// Takes the end of the answer, where its mark has not come.
    pub fn finish(&mut self) -> (res: StreamBatch)
        requires
            old(self).wf(),
        ensures
            final(self).wf(),
            ({
                let s = old(self).deep_view();
                &&& final(self).deep_view().api == s.api
                &&& final(self).deep_view().parser == (SseView {
                    buffer: Seq::empty(),
                    data_lines: if rest_read(s.parser).broken is None {
                        Seq::empty()
                    } else {
                        s.parser.data_lines
                    },
                })
                &&& batch_is(
                    res,
                    final(self).deep_view().collector,
                    outcome_processed(s.collector, s.api, rest_read(s.parser)),
                )
            }),
    {
        match self.parser.finish() {
            Ok(payloads) => process_payloads(&mut self.collector, &payloads, self.api),
            Err(error) => {
                let events: Vec<ModelEvent> = Vec::new();
                assert(events.deep_view() =~= Seq::<ModelEventView>::empty());
                StreamBatch { events, outcome: Err(error) }
            },
        }
    }

    /// The response that has come.
    pub fn response(self) -> (res: Result<ModelResponse, ProviderError>)
        ensures
            match (res, collected(self.deep_view().collector)) {
                (Ok(response), Ok(expected)) => response.deep_view() == expected,
                (Err(error), Err(expected)) => error.deep_view() == expected,
                _ => false,
            },
    {
        self.collector.finish()
    }
}

/// How payloads are cut into batches makes no difference: what the first batch brings is followed
/// by what the second does, unless the first was the end.
pub proof fn lemma_batches_join(
    c: CollectorView,
    api: ApiKind,
    first: Seq<Seq<char>>,
    second: Seq<Seq<char>>,
)
    ensures
        ({
            let one = payloads_processed(c, api, first);
            let both = payloads_processed(c, api, first + second);
            if one.outcome == Ok::<bool, ProviderErrorView>(false) {
                let two = payloads_processed(one.collector, api, second);
                both == (ProcessedView { events: one.events + two.events, ..two })
            } else {
                both == one
            }
        }),
    decreases first.len(),
{
    if first.len() == 0 {
        assert(first + second =~= second);
        let two = payloads_processed(c, api, second);
        assert(Seq::<ModelEventView>::empty() + two.events =~= two.events);
    } else if is_done_mark(first[0]) {
        assert((first + second)[0] == first[0]);
    } else {
        assert((first + second)[0] == first[0]);
        assert((first + second).drop_first() =~= first.drop_first() + second);
        if let Ok(payload) = payload_text_meaning(api, first[0]) {
            let next = payload_taken(c, payload);
            lemma_batches_join(next, api, first.drop_first(), second);
            let one = payloads_processed(next, api, first.drop_first());
            if one.outcome == Ok::<bool, ProviderErrorView>(false) {
                let two = payloads_processed(one.collector, api, second);
                assert(payload.events + (one.events + two.events) =~= (payload.events
                    + one.events) + two.events);
            }
        }
    }
}

} // verus!
