//! A request on its way through the proxy: what is sent to the provider, when
//! it is sent a second time, and what is answered.

use crate::capability::{
    law_recorded_capability_is_known, record_prompt_structured_output_capability, recorded,
    CapabilityCache,
};
use crate::chat_request;
use crate::chat_request::{
    degrade_structured_output, or_blank, responses_to_chat_body, schema_of,
};
use crate::completion;
use crate::completion::completion_to_chunk;
use crate::events;
use crate::events::PendingEvent;
use crate::ids;
use crate::json;
use crate::json::{Json, JsonView};
use crate::proxy;
use crate::proxy::{
    endpoint_for, error_response, invalid_request_response, is_authorized, send_failure_response,
    unauthorized_response, upstream_error_response, ProxyRuntimeSnapshot, Reply, ReplyView,
    SendFailure,
};
use crate::pump::{
    translate_buffered_sse, ContextView, Drawn, EndView, ResponseTranslationContext, RunView,
    SseRun,
};
use crate::reasoning::{EntryView, ReasoningStore};
use crate::request;
use crate::request::validate_supported_responses_request;
use crate::response;
use crate::response::{
    chat_to_responses_body_with_suffix, request_metadata, ResponseMetadata,
};
use crate::stream;
use crate::stream::{are_simple_ids, chunk_calls, document_of};
use crate::text;
use vstd::prelude::*;

verus! {

// ---------------------------------------------------------------------------
// The request
// ---------------------------------------------------------------------------

/// A request that may be sent to the provider.
pub struct PreparedRequest {
    pub stream: bool,
    pub metadata: ResponseMetadata,
    pub model: String,
    pub native_body: Json,
    pub structured_schema: Option<Json>,
    pub capability_key: String,
    pub prompted: bool,
    pub url: String,
    pub timeout_secs: u64,
}

/// A prepared request as a mathematical value.
pub struct PreparedView {
    pub stream: bool,
    pub metadata: JsonView,
    pub model: Seq<char>,
    pub native_body: JsonView,
    pub structured_schema: Option<JsonView>,
    pub capability_key: Seq<char>,
    pub prompted: bool,
    pub url: Seq<char>,
    pub timeout_secs: u64,
}

impl View for PreparedRequest {
    type V = PreparedView;

    open spec fn view(&self) -> PreparedView {
        PreparedView {
            stream: self.stream,
            metadata: self.metadata@,
            model: self.model@,
            native_body: self.native_body@,
            structured_schema: document_of(self.structured_schema),
            capability_key: self.capability_key@,
            prompted: self.prompted,
            url: self.url@,
            timeout_secs: self.timeout_secs,
        }
    }
}

impl PreparedView {
    /// Whether the answer has to be a JSON document.
    pub open spec fn structured(self) -> bool {
        self.native_body.has("response_format"@)
    }

    /// What is sent first.
    pub open spec fn first_body(self) -> JsonView {
        if self.prompted {
            chat_request::degraded(self.native_body)
        } else {
            self.native_body
        }
    }
}

/// Under which key it is remembered how a model takes a kind of output.
pub open spec fn capability_key(model: Seq<char>, chat: JsonView) -> Seq<char> {
    let kind = match chat.get_in("response_format"@, "type"@) {
        Some(kind) => match kind.as_text() {
            Some(kind) => kind,
            None => "none"@,
        },
        None => "none"@,
    };
    model + "\n"@ + kind
}

fn make_capability_key(model: &str, chat: &Json) -> (key: String)
    ensures
        key@ == capability_key(model@, chat@),
{
    let kind = match chat.get_in("response_format", "type") {
        Some(kind) => match kind.as_str() {
            Some(kind) => kind,
            None => "none",
        },
        None => "none",
    };
    let mut key = text::concat(model, "\n");
    key.append(kind);
    key
}

/// A document that a request brings, or the answer that refuses it.
pub open spec fn received_body(body: Seq<u8>) -> Result<JsonView, ReplyView> {
    match json::parsed_bytes(body) {
        Some(document) => if document is Object {
            Ok(document)
        } else {
            Err(
                proxy::error_reply(
                    400,
                    "请求体必须是 JSON 对象，无法转换为 Chat Completions 请求。"@,
                ),
            )
        },
        None => Err(
            proxy::error_reply(
                400,
                "请求体不是有效的 JSON 对象，无法转换为 Chat Completions 请求。"@,
            ),
        ),
    }
}

/// The answer of a proxy without a provider.
pub open spec fn no_provider_reply() -> ReplyView {
    proxy::error_reply(
        503,
        "本机转换代理尚未配置上游服务，请先在应用中切换一个 Chat Completions 服务。"@,
    )
}

/// The answer of a proxy without a provider.
fn no_provider_response() -> (reply: Reply)
    ensures
        reply@ == no_provider_reply(),
{
    error_response(
        503,
        "本机转换代理尚未配置上游服务，请先在应用中切换一个 Chat Completions 服务。",
    )
}

/// What is made of the body of a request.
pub open spec fn prepared_body(body: JsonView, snapshot: ProxyRuntimeSnapshot) -> PreparedView {
    let model = chat_request::or_empty(body.text_at("model"@));
    let chat = chat_request::chat_body(body, snapshot.reasoning_store@);
    let key = capability_key(model, chat);
    PreparedView {
        stream: body.bool_at("stream"@) == Some(true),
        metadata: request_metadata(body),
        model,
        native_body: chat,
        structured_schema: chat_request::requested_schema(chat),
        capability_key: key,
        prompted: chat.has("response_format"@) && snapshot.capabilities@.contains(key),
        url: proxy::endpoint(snapshot.config@.upstream_base, "chat/completions"@),
        timeout_secs: snapshot.config@.timeout_secs,
    }
}

/// What is made of a request: refused for the caller, for its body, for what
/// it asks for or for want of a provider, in this order; otherwise prepared.
pub open spec fn prepared(
    presented: Option<Seq<u8>>,
    expected: Seq<u8>,
    body: Seq<u8>,
    snapshot: ProxyRuntimeSnapshot,
) -> Result<PreparedView, ReplyView> {
    if presented != Some(expected) {
        Err(proxy::unauthorized_reply())
    } else {
        match received_body(body) {
            Err(reply) => Err(reply),
            Ok(document) => match request::request_problem(document) {
                Some(problem) => Err(proxy::refusal_reply(problem)),
                None => if snapshot.config@.upstream_base.len() == 0 {
                    Err(no_provider_reply())
                } else {
                    Ok(prepared_body(document, snapshot))
                },
            },
        }
    }
}

/// The bytes of an optional slice.
pub open spec fn bytes_of(bytes: Option<&[u8]>) -> Option<Seq<u8>> {
    match bytes {
        Some(bytes) => Some(bytes@),
        None => None,
    }
}

fn prepare_body(body: &Json, snapshot: &ProxyRuntimeSnapshot) -> (request: PreparedRequest)
    requires
        snapshot.reasoning_store.wf(),
    ensures
        request@ == prepared_body(body@, *snapshot),
{
    let model = or_blank(body.text_at("model")).to_owned();
    let native_body = responses_to_chat_body(body, &snapshot.reasoning_store);
    let structured_schema = match schema_of(&native_body) {
        Some(schema) => Some(schema.duplicate()),
        None => None,
    };
    let capability_key = make_capability_key(model.as_str(), &native_body);
    let prompted = native_body.has("response_format") && snapshot.capabilities.contains(
        capability_key.as_str(),
    );
    let stream = match body.bool_at("stream") {
        Some(stream) => stream,
        None => false,
    };
    PreparedRequest {
        stream,
        metadata: ResponseMetadata::from_request(body),
        model,
        native_body,
        structured_schema,
        capability_key,
        prompted,
        url: endpoint_for(snapshot.config.upstream_base.as_str(), "chat/completions"),
        timeout_secs: snapshot.config.timeout_secs,
    }
}

/// Prepares a request for the provider, or says what to answer instead.
pub fn prepare_request(
    presented: Option<&[u8]>,
    expected: &Vec<u8>,
    body: &[u8],
    snapshot: &ProxyRuntimeSnapshot,
) -> (outcome: Result<PreparedRequest, Reply>)
    requires
        snapshot.reasoning_store.wf(),
    ensures
        match outcome {
            Ok(request) => prepared(bytes_of(presented), expected@, body@, *snapshot) == Ok::<
                PreparedView,
                ReplyView,
            >(request@),
            Err(reply) => prepared(bytes_of(presented), expected@, body@, *snapshot) == Err::<
                PreparedView,
                ReplyView,
            >(reply@),
        },
{
    if !is_authorized(presented, expected) {
        return Err(unauthorized_response());
    }
    let document = match Json::parse_bytes(body) {
        Some(document) => document,
        None => return Err(
            error_response(
                400,
                "请求体不是有效的 JSON 对象，无法转换为 Chat Completions 请求。",
            ),
        ),
    };
    if !document.is_object() {
        return Err(
            error_response(400, "请求体必须是 JSON 对象，无法转换为 Chat Completions 请求。"),
        );
    }
    if let Err(problem) = validate_supported_responses_request(&document) {
        return Err(invalid_request_response(problem.as_str()));
    }
    if snapshot.config.is_disabled() {
        return Err(no_provider_response());
    }
    Ok(prepare_body(&document, snapshot))
}

// ---------------------------------------------------------------------------
// Sending
// ---------------------------------------------------------------------------

/// What came of sending a request.
pub enum Arrival {
    /// Nothing arrived.
    Failed(SendFailure),
    /// The provider refused, with a status and the text of its error.
    Refused(u16, String),
    /// The provider answers.
    Accepted,
}

/// What is to be done next.
pub enum Step {
    /// Send this body.
    Send(Json),
    /// Answer the caller.
    Answer(Reply),
    /// Read the answer of the provider.
    Read,
}

/// What is to be done next, as a mathematical value.
pub enum StepView {
    Send(JsonView),
    Answer(ReplyView),
    Read,
}

impl View for Step {
    type V = StepView;

    open spec fn view(&self) -> StepView {
        match self {
            Step::Send(body) => StepView::Send(body@),
            Step::Answer(reply) => StepView::Answer(reply@),
            Step::Read => StepView::Read,
        }
    }
}

/// A request that is being sent, and whether it is sent a second time.
pub struct Exchange {
    pub request: PreparedRequest,
    pub retried: bool,
}

/// An exchange as a mathematical value.
pub struct ExchangeView {
    pub request: PreparedView,
    pub retried: bool,
}

impl View for Exchange {
    type V = ExchangeView;

    open spec fn view(&self) -> ExchangeView {
        ExchangeView { request: self.request@, retried: self.retried }
    }
}

/// Whether a status says that a request was not understood.
pub open spec fn is_rejection(status: u16) -> bool {
    status == 400 || status == 422
}

impl ExchangeView {
    /// Whether a refusal allows for asking once more, in words: the provider
    /// did not understand a request for structured output in the usual form.
    pub open spec fn may_retry(self, status: u16) -> bool {
        &&& !self.retried
        &&& self.request.structured()
        &&& !self.request.prompted
        &&& is_rejection(status)
    }

    /// What follows an arrival.
    pub open spec fn step(self, arrival: Arrival) -> StepView {
        match arrival {
            Arrival::Failed(failure) => StepView::Answer(
                proxy::send_failure_reply(failure, self.request.timeout_secs),
            ),
            Arrival::Refused(status, detail) => if self.may_retry(status) {
                StepView::Send(chat_request::degraded(self.request.native_body))
            } else {
                StepView::Answer(proxy::upstream_error_reply(status, detail@))
            },
            Arrival::Accepted => StepView::Read,
        }
    }

    /// The exchange after an arrival.
    pub open spec fn after(self, arrival: Arrival) -> ExchangeView {
        ExchangeView { retried: self.retried || self.step(arrival) is Send, ..self }
    }

    /// What the translation of the answer needs to know.
    pub open spec fn context(self, response_id: Seq<char>, created_at: i64) -> ContextView {
        ContextView {
            response_id,
            model: self.request.model,
            created_at,
            structured_output: self.request.structured(),
            structured_schema: self.request.structured_schema,
            metadata: self.request.metadata,
            capability_key: if self.retried {
                Some(self.request.capability_key)
            } else {
                None
            },
        }
    }
}

impl Exchange {
    /// An exchange before anything is sent.
    pub fn new(request: PreparedRequest) -> (exchange: Self)
        ensures
            exchange@ == (ExchangeView { request: request@, retried: false }),
    {
        Exchange { request, retried: false }
    }

    /// What is sent first.
    pub fn first_body(&self) -> (body: Json)
        ensures
            body@ == self@.request.first_body(),
    {
        if self.request.prompted {
            degrade_structured_output(&self.request.native_body)
        } else {
            self.request.native_body.duplicate()
        }
    }

    /// What follows an arrival.
    pub fn next_step(&mut self, arrival: &Arrival) -> (step: Step)
        ensures
            step@ == old(self)@.step(*arrival),
            final(self)@ == old(self)@.after(*arrival),
    {
        match arrival {
            Arrival::Failed(failure) => Step::Answer(
                send_failure_response(failure, self.request.timeout_secs),
            ),
            Arrival::Refused(status, detail) => {
                let rejected = *status == 400 || *status == 422;
                if rejected && !self.retried && !self.request.prompted
                    && self.request.native_body.has("response_format") {
                    self.retried = true;
                    Step::Send(degrade_structured_output(&self.request.native_body))
                } else {
                    Step::Answer(upstream_error_response(*status, detail.as_str()))
                }
            },
            Arrival::Accepted => Step::Read,
        }
    }

    /// What the translation of the answer needs to know.
    pub fn context_with_id(&self, response_id: String, created_at: i64) -> (context:
        ResponseTranslationContext)
        ensures
            context@ == self@.context(response_id@, created_at),
    {
        let structured_schema = match &self.request.structured_schema {
            Some(schema) => Some(schema.duplicate()),
            None => None,
        };
        let capability_key = if self.retried {
            Some(self.request.capability_key.clone())
        } else {
            None
        };
        ResponseTranslationContext {
            response_id,
            model: self.request.model.clone(),
            created_at,
            structured_output: self.request.native_body.has("response_format"),
            structured_schema,
            metadata: self.request.metadata.duplicate(),
            capability_key,
        }
    }

    /// What the translation of the answer needs to know, with a random
    /// identifier for the answer.
    pub fn context(&self, created_at: i64) -> (context: ResponseTranslationContext)
        ensures
            exists|suffix: Seq<char>| #[trigger]
                ids::is_simple_id(suffix) && context@ == self@.context(
                    "resp_"@ + suffix,
                    created_at,
                ),
    {
        let suffix = ids::random_id();
        assert(ids::is_simple_id(suffix@));
        self.context_with_id(text::concat("resp_", suffix.as_str()), created_at)
    }
}

// ---------------------------------------------------------------------------
// The answer as a whole
// ---------------------------------------------------------------------------

/// What came of reading the answer of the provider.
pub enum BodyRead {
    Bytes(Vec<u8>),
    TimedOut,
    Broken,
}

/// The answer to a read that brought nothing.
pub open spec fn unread_reply(read: BodyRead) -> Option<ReplyView> {
    match read {
        BodyRead::Bytes(_) => None,
        BodyRead::TimedOut => Some(proxy::error_reply(504, "读取上游服务响应超时。"@)),
        BodyRead::Broken => Some(proxy::error_reply(502, "读取上游服务响应失败。"@)),
    }
}

/// The optional answer.
pub open spec fn reply_of(reply: Option<Reply>) -> Option<ReplyView> {
    match reply {
        Some(reply) => Some(reply@),
        None => None,
    }
}

fn unread_response(read: &BodyRead) -> (reply: Option<Reply>)
    ensures
        reply_of(reply) == unread_reply(*read),
{
    match read {
        BodyRead::Bytes(_) => None,
        BodyRead::TimedOut => Some(error_response(504, "读取上游服务响应超时。")),
        BodyRead::Broken => Some(error_response(502, "读取上游服务响应失败。")),
    }
}

/// What an answer leaves: what is told, the memory and what is known of the
/// providers.
pub struct AnswerView {
    pub reply: ReplyView,
    pub entries: Seq<EntryView>,
    pub keys: Set<Seq<char>>,
}

impl ContextView {
    /// What a whole Chat answer leads to.
    pub open spec fn answered(
        self,
        chat: JsonView,
        suffix: Seq<char>,
        entries: Seq<EntryView>,
        keys: Set<Seq<char>>,
    ) -> AnswerView {
        let memory = response::memory_after(
            entries,
            chat,
            self.structured_output,
            self.structured_schema,
            suffix,
        );
        match response::answer_problem(chat, self.structured_output, self.structured_schema) {
            Some(problem) => AnswerView {
                reply: proxy::error_reply(502, problem),
                entries: memory,
                keys,
            },
            None => AnswerView {
                reply: ReplyView {
                    status: 200,
                    body: response::translated(
                        chat,
                        self.response_id,
                        self.model,
                        self.created_at,
                        self.structured_output,
                        self.structured_schema,
                        suffix,
                    ).merged(self.metadata),
                },
                entries: memory,
                keys: match self.capability_key {
                    Some(key) => recorded(keys, key),
                    None => keys,
                },
            },
        }
    }

    /// What reading the answer of the provider as a whole leads to.
    pub open spec fn read_whole(
        self,
        read: BodyRead,
        suffix: Seq<char>,
        entries: Seq<EntryView>,
        keys: Set<Seq<char>>,
    ) -> AnswerView {
        match read {
            BodyRead::Bytes(bytes) => match json::parsed_bytes(bytes@) {
                Some(chat) => self.answered(chat, suffix, entries, keys),
                None => AnswerView {
                    reply: proxy::error_reply(502, "上游服务返回的响应不是有效 JSON。"@),
                    entries,
                    keys,
                },
            },
            _ => AnswerView { reply: unread_reply(read)->0, entries, keys },
        }
    }
}

fn answer_chat(
    chat: &Json,
    context: &ResponseTranslationContext,
    suffix: &str,
    store: &mut ReasoningStore,
    cache: &mut CapabilityCache,
) -> (reply: Reply)
    requires
        old(store).wf(),
        old(cache).wf(),
    ensures
        final(store).wf(),
        final(cache).wf(),
        ({
            let answer = context@.answered(chat@, suffix@, old(store)@, old(cache)@);
            &&& reply@ == answer.reply
            &&& final(store)@ == answer.entries
            &&& final(cache)@ == answer.keys
        }),
{
    let schema = match &context.structured_schema {
        Some(schema) => Some(schema),
        None => None,
    };
    match chat_to_responses_body_with_suffix(
        chat,
        context.response_id.as_str(),
        context.model.as_str(),
        context.created_at,
        store,
        context.structured_output,
        schema,
        suffix,
    ) {
        Ok(translated) => {
            let mut body = translated;
            context.metadata.apply(&mut body);
            if let Some(key) = &context.capability_key {
                record_prompt_structured_output_capability(cache, key.clone());
            }
            Reply { status: 200, body }
        },
        Err(problem) => error_response(502, problem.as_str()),
    }
}

/// Translates an answer that was read as a whole. The texts of the item
/// identifiers end in `suffix`.
pub fn translate_reply_with_suffix(
    read: &BodyRead,
    context: &ResponseTranslationContext,
    suffix: &str,
    store: &mut ReasoningStore,
    cache: &mut CapabilityCache,
) -> (reply: Reply)
    requires
        old(store).wf(),
        old(cache).wf(),
    ensures
        final(store).wf(),
        final(cache).wf(),
        ({
            let answer = context@.read_whole(*read, suffix@, old(store)@, old(cache)@);
            &&& reply@ == answer.reply
            &&& final(store)@ == answer.entries
            &&& final(cache)@ == answer.keys
        }),
{
    if let Some(reply) = unread_response(read) {
        return reply;
    }
    let parsed = match read {
        BodyRead::Bytes(bytes) => Json::parse_bytes(bytes.as_slice()),
        _ => None,
    };
    match parsed {
        Some(chat) => answer_chat(&chat, context, suffix, store, cache),
        None => error_response(502, "上游服务返回的响应不是有效 JSON。"),
    }
}

/// Translates an answer that was read as a whole, with random item
/// identifiers.
pub fn translate_reply(
    read: &BodyRead,
    context: &ResponseTranslationContext,
    store: &mut ReasoningStore,
    cache: &mut CapabilityCache,
) -> (reply: Reply)
    requires
        old(store).wf(),
        old(cache).wf(),
    ensures
        final(store).wf(),
        final(cache).wf(),
        exists|suffix: Seq<char>|
            {
                let answer = context@.read_whole(*read, suffix, old(store)@, old(cache)@);
                &&& #[trigger] ids::is_simple_id(suffix)
                &&& reply@ == answer.reply
                &&& final(store)@ == answer.entries
                &&& final(cache)@ == answer.keys
            },
{
    let suffix = ids::random_id();
    assert(ids::is_simple_id(suffix@));
    translate_reply_with_suffix(read, context, suffix.as_str(), store, cache)
}

// ---------------------------------------------------------------------------
// A whole answer to a request for a stream
// ---------------------------------------------------------------------------

/// What is told where a stream was asked for and none came.
pub enum Fallback {
    Reply(Reply),
    Events(Vec<PendingEvent>),
}

/// Whether a text holds the data of a server-sent event.
pub open spec fn holds_event_data(body: Seq<char>) -> bool {
    exists|i: int|
        0 <= i < text::lines_of(body).len() && text::begins_with(
            #[trigger] text::lines_of(body)[i],
            "data:"@,
        )
}

fn has_event_data(body: &str) -> (found: bool)
    ensures
        found == holds_event_data(body@),
{
    let lines = text::split_lines(body);
    let ghost views = text::texts(lines@);
    for index in 0..lines.len()
        invariant
            views == text::texts(lines@),
            views == text::lines_of(body@),
            forall|i: int| 0 <= i < index ==> !text::begins_with(#[trigger] views[i], "data:"@),
    {
        assert(views[index as int] == lines[index as int]@);
        if text::starts_with(lines[index].as_str(), "data:") {
            return true;
        }
    }
    false
}

/// What the text of an answer that is no stream is taken for.
pub enum FallbackView {
    /// It is answered like this.
    Reply(ReplyView),
    /// It holds server-sent events.
    Sse,
    /// It is this completion.
    Completion(JsonView),
}

/// What the text of an answer that is no stream is taken for.
pub open spec fn fallback_kind(body: Seq<char>) -> FallbackView {
    match json::parsed_text(body) {
        None => if holds_event_data(body) {
            FallbackView::Sse
        } else {
            FallbackView::Reply(
                proxy::error_reply(
                    502,
                    "上游服务返回了无法识别的响应："@ + text::truncated(body, 200),
                ),
            )
        },
        Some(document) => if document.has("error"@) {
            FallbackView::Reply(proxy::upstream_error_reply(502, body))
        } else if !document.has("choices"@) {
            FallbackView::Reply(
                proxy::error_reply(502, "上游服务返回的响应既不是 SSE 流也不是补全结果。"@),
            )
        } else {
            FallbackView::Completion(document)
        },
    }
}

impl ContextView {
    /// The events for a completion that came all at once.
    pub open spec fn told_at_once(
        self,
        completion: JsonView,
        suffix: Seq<char>,
        fresh: Seq<Seq<char>>,
        entries: Seq<EntryView>,
        keys: Set<Seq<char>>,
    ) -> EndView {
        let run = self.opened(
            "msg_"@ + suffix,
            "无法转换上游 Chat Completions 响应。"@,
        ).chunk_taken(completion::whole_chunk(completion), fresh);
        let end = run.concluded(entries, keys, self.capability_key);
        EndView { flow: end.flow.fail_unless_told(run, entries), ..end }
    }
}

impl stream::Flow {
    /// The flow, with the failure told where the answer was not completed.
    pub open spec fn fail_unless_told(self, run: RunView, entries: Seq<EntryView>) -> stream::Flow {
        if run.failed || run.flow.finish(entries).completed {
            self
        } else {
            self.fail(run.message)
        }
    }
}

/// The events for a completion that came all at once.
pub fn completion_events(
    completion: &Json,
    context: &ResponseTranslationContext,
    store: &mut ReasoningStore,
    cache: &mut CapabilityCache,
) -> (events: Vec<PendingEvent>)
    requires
        old(store).wf(),
        old(cache).wf(),
    ensures
        final(store).wf(),
        final(cache).wf(),
        exists|suffix: Seq<char>, fresh: Seq<Seq<char>>|
            {
                let end = context@.told_at_once(
                    completion@,
                    suffix,
                    fresh,
                    old(store)@,
                    old(cache)@,
                );
                &&& #[trigger] ids::is_simple_id(suffix)
                &&& #[trigger] are_simple_ids(fresh)
                &&& fresh.len() == chunk_calls(completion::whole_chunk(completion@)).len()
                &&& events::events_view(events@) == end.flow.out
                &&& final(store)@ == end.entries
                &&& final(cache)@ == end.keys
            },
{
    let mut run = SseRun::open(context, "无法转换上游 Chat Completions 响应。");
    let ghost start = run@;
    let ghost suffix = choose|suffix: Seq<char>| #[trigger]
        ids::is_simple_id(suffix) && run@ == context@.opened(
            "msg_"@ + suffix,
            "无法转换上游 Chat Completions 响应。"@,
        );
    let chunk = completion_to_chunk(completion);
    let failure = run.translator.push_chunk(&chunk, &mut run.pending);
    let ghost fresh = choose|fresh: Seq<Seq<char>>|
        {
            &&& #[trigger] are_simple_ids(fresh)
            &&& fresh.len() == chunk_calls(chunk@).len()
            &&& run@.flow == start.flow.push_chunk(chunk@, fresh).flow
            &&& text::string_of(failure) == start.flow.push_chunk(chunk@, fresh).failure
        };
    if failure.is_some() {
        run.failed = true;
    }
    let ghost taken = run@;
    assert(taken == start.chunk_taken(chunk@, fresh));
    let mut completed = false;
    if run.failed {
        run.translator.fail(&mut run.pending, "无法转换上游 Chat Completions 响应。");
    } else {
        completed = run.translator.finish(&mut run.pending, store);
        if completed {
            if let Some(key) = &context.capability_key {
                record_prompt_structured_output_capability(cache, key.clone());
            }
        } else {
            run.translator.fail(&mut run.pending, "无法转换上游 Chat Completions 响应。");
        }
    }
    proof {
        assert(ids::is_simple_id(suffix));
        assert(are_simple_ids(fresh));
    }
    run.pending
}

/// Answers a request for a stream where the provider did not stream: a
/// completion and a body of events become events, an error stays an error,
/// anything else is refused.
pub fn fallback_non_sse_stream(
    read: &BodyRead,
    context: &ResponseTranslationContext,
    store: &mut ReasoningStore,
    cache: &mut CapabilityCache,
) -> (answer: Fallback)
    requires
        old(store).wf(),
        old(cache).wf(),
    ensures
        final(store).wf(),
        final(cache).wf(),
        match read {
            BodyRead::Bytes(bytes) => {
                let body = text::lossy_text(bytes@);
                match fallback_kind(body) {
                    FallbackView::Reply(reply) => {
                        &&& answer matches Fallback::Reply(given) && given@ == reply
                        &&& final(store)@ == old(store)@
                        &&& final(cache)@ == old(cache)@
                    },
                    FallbackView::Sse => {
                        &&& answer matches Fallback::Events(told)
                        &&& exists|drawn: Drawn|
                            {
                                let end = context@.read_body(body, drawn).concluded(
                                    old(store)@,
                                    old(cache)@,
                                    context@.capability_key,
                                );
                                &&& #[trigger] context@.fits_body(body, drawn)
                                &&& events::events_view(told@) == end.flow.out
                                &&& final(store)@ == end.entries
                                &&& final(cache)@ == end.keys
                            }
                    },
                    FallbackView::Completion(completion) => {
                        &&& answer matches Fallback::Events(told)
                        &&& exists|suffix: Seq<char>, fresh: Seq<Seq<char>>|
                            {
                                let end = context@.told_at_once(
                                    completion,
                                    suffix,
                                    fresh,
                                    old(store)@,
                                    old(cache)@,
                                );
                                &&& #[trigger] ids::is_simple_id(suffix)
                                &&& #[trigger] are_simple_ids(fresh)
                                &&& fresh.len() == chunk_calls(
                                    completion::whole_chunk(completion),
                                ).len()
                                &&& events::events_view(told@) == end.flow.out
                                &&& final(store)@ == end.entries
                                &&& final(cache)@ == end.keys
                            }
                    },
                }
            },
            _ => {
                &&& answer matches Fallback::Reply(given) && Some(given@) == unread_reply(*read)
                &&& final(store)@ == old(store)@
                &&& final(cache)@ == old(cache)@
            },
        },
{
    if let Some(reply) = unread_response(read) {
        return Fallback::Reply(reply);
    }
    let body = match read {
        BodyRead::Bytes(bytes) => text::utf8_lossy(bytes.as_slice()),
        _ => String::new(),
    };
    let document = match Json::parse(body.as_str()) {
        Some(document) => document,
        None => {
            if has_event_data(body.as_str()) {
                let told = translate_buffered_sse(body.as_str(), context, store, cache);
                return Fallback::Events(told);
            }
            let shown = text::truncate(body.as_str(), 200);
            let message = text::concat("上游服务返回了无法识别的响应：", shown.as_str());
            return Fallback::Reply(error_response(502, message.as_str()));
        },
    };
    if document.has("error") {
        return Fallback::Reply(upstream_error_response(502, body.as_str()));
    }
    if !document.has("choices") {
        return Fallback::Reply(
            error_response(502, "上游服务返回的响应既不是 SSE 流也不是补全结果。"),
        );
    }
    Fallback::Events(completion_events(&document, context, store, cache))
}

// ---------------------------------------------------------------------------
// The list of models
// ---------------------------------------------------------------------------

/// What came of asking the provider for its models.
pub enum ModelsRead {
    Answered(u16, Vec<u8>),
    Unreachable(String),
    Broken(String),
    TimedOut,
}

/// What a request for the models leads to before the provider is asked: an
/// answer, or the address to ask.
pub open spec fn models_request(
    presented: Option<Seq<u8>>,
    expected: Seq<u8>,
    snapshot: ProxyRuntimeSnapshot,
) -> Result<Seq<char>, ReplyView> {
    if presented != Some(expected) {
        Err(proxy::unauthorized_reply())
    } else if snapshot.config@.upstream_base.len() == 0 {
        Err(no_provider_reply())
    } else {
        Ok(proxy::endpoint(snapshot.config@.upstream_base, "models"@))
    }
}

/// What a request for the models leads to before the provider is asked: an
/// answer, or the address to ask.
pub fn prepare_models(
    presented: Option<&[u8]>,
    expected: &Vec<u8>,
    snapshot: &ProxyRuntimeSnapshot,
) -> (outcome: Result<String, Reply>)
    ensures
        match outcome {
            Ok(url) => models_request(bytes_of(presented), expected@, *snapshot) == Ok::<
                Seq<char>,
                ReplyView,
            >(url@),
            Err(reply) => models_request(bytes_of(presented), expected@, *snapshot) == Err::<
                Seq<char>,
                ReplyView,
            >(reply@),
        },
{
    if !is_authorized(presented, expected) {
        return Err(unauthorized_response());
    }
    if snapshot.config.is_disabled() {
        return Err(no_provider_response());
    }
    Ok(endpoint_for(snapshot.config.upstream_base.as_str(), "models"))
}

/// The answer to a request for the models.
pub open spec fn models_reply(read: ModelsRead) -> ReplyView {
    match read {
        ModelsRead::Answered(status, bytes) => match json::parsed_bytes(bytes@) {
            Some(body) => ReplyView { status, body },
            None => proxy::error_reply(502, "上游服务返回的模型列表不是有效 JSON。"@),
        },
        ModelsRead::Unreachable(reason) => proxy::error_reply(
            502,
            "无法连接上游服务获取模型列表："@ + reason@,
        ),
        ModelsRead::Broken(reason) => proxy::error_reply(502, reason@),
        ModelsRead::TimedOut => proxy::error_reply(504, "等待上游服务返回模型列表超时。"@),
    }
}

/// The answer to a request for the models.
pub fn answer_models(read: &ModelsRead) -> (reply: Reply)
    ensures
        reply@ == models_reply(*read),
{
    match read {
        ModelsRead::Answered(status, bytes) => match Json::parse_bytes(bytes.as_slice()) {
            Some(body) => Reply { status: *status, body },
            None => error_response(502, "上游服务返回的模型列表不是有效 JSON。"),
        },
        ModelsRead::Unreachable(reason) => {
            let message = text::concat("无法连接上游服务获取模型列表：", reason.as_str());
            error_response(502, message.as_str())
        },
        ModelsRead::Broken(reason) => error_response(502, reason.as_str()),
        ModelsRead::TimedOut => error_response(504, "等待上游服务返回模型列表超时。"),
    }
}

// ---------------------------------------------------------------------------
// Laws
// ---------------------------------------------------------------------------

/// A caller without the key of the proxy learns nothing and nothing is sent
/// for it, whatever it asks.
pub proof fn law_strangers_are_refused(
    presented: Option<Seq<u8>>,
    expected: Seq<u8>,
    body: Seq<u8>,
    snapshot: ProxyRuntimeSnapshot,
)
    requires
        presented != Some(expected),
    ensures
        prepared(presented, expected, body, snapshot) == Err::<PreparedView, ReplyView>(
            proxy::unauthorized_reply(),
        ),
        models_request(presented, expected, snapshot) == Err::<Seq<char>, ReplyView>(
            proxy::unauthorized_reply(),
        ),
{
}

/// Without a provider nothing is sent.
pub proof fn law_nothing_is_sent_without_a_provider(
    presented: Option<Seq<u8>>,
    expected: Seq<u8>,
    body: Seq<u8>,
    snapshot: ProxyRuntimeSnapshot,
)
    requires
        snapshot.config@.upstream_base.len() == 0,
    ensures
        prepared(presented, expected, body, snapshot) is Err,
        models_request(presented, expected, snapshot) is Err,
{
}

/// A request is sent a second time at most, and then without the format that
/// the provider did not understand.
pub proof fn law_one_retry(exchange: ExchangeView, first: Arrival, second: Arrival)
    requires
        exchange.step(first) is Send,
    ensures
        !(exchange.after(first).step(second) is Send),
        exchange.step(first) matches StepView::Send(body) && !body.has("response_format"@),
{
    chat_request::law_degraded_request_has_no_format(exchange.request.native_body);
}

/// What a provider is able to do is learnt from a second attempt alone, and
/// only where its answer was completed: once learnt, requests of the same
/// kind ask in words from the start.
pub proof fn law_learnt_capability_is_used(
    exchange: ExchangeView,
    response_id: Seq<char>,
    created_at: i64,
    chat: JsonView,
    suffix: Seq<char>,
    entries: Seq<EntryView>,
    keys: Set<Seq<char>>,
)
    ensures
        ({
            let context = exchange.context(response_id, created_at);
            let answer = context.answered(chat, suffix, entries, keys);
            &&& !exchange.retried ==> answer.keys == keys
            &&& answer.reply.status != 200 ==> answer.keys == keys
            &&& exchange.retried && answer.reply.status == 200 ==> answer.keys.contains(
                exchange.request.capability_key,
            )
        }),
{
}

/// A structured request that the provider does not understand is sent twice: as
/// it is, and then in words. The answer to the second is what the caller gets.
/// From then on, requests of the same kind are sent once, in words from the
/// start, as long as what was learnt is known.
pub proof fn law_retry_is_learnt(
    body: JsonView,
    snapshot: ProxyRuntimeSnapshot,
    status: u16,
    detail: String,
    other: Arrival,
    chat: JsonView,
    response_id: Seq<char>,
    created_at: i64,
    suffix: Seq<char>,
    next: JsonView,
    later: ProxyRuntimeSnapshot,
)
    requires
        ({
            let request = prepared_body(body, snapshot);
            let following = prepared_body(next, later);
            let start = ExchangeView { request, retried: false };
            let answer = start.after(Arrival::Refused(status, detail)).context(
                response_id,
                created_at,
            ).answered(chat, suffix, snapshot.reasoning_store@, snapshot.capabilities@);
            &&& request.structured()
            &&& !snapshot.capabilities@.contains(request.capability_key)
            &&& is_rejection(status)
            &&& response::answer_problem(chat, true, request.structured_schema) is None
            &&& later.capabilities@ == answer.keys
            &&& following.structured()
            &&& following.capability_key == request.capability_key
        }),
    ensures
        ({
            let request = prepared_body(body, snapshot);
            let following = prepared_body(next, later);
            let start = ExchangeView { request, retried: false };
            let refused = Arrival::Refused(status, detail);
            let again = start.after(refused);
            let context = again.context(response_id, created_at);
            let answer = context.answered(
                chat,
                suffix,
                snapshot.reasoning_store@,
                snapshot.capabilities@,
            );
            &&& request.first_body() == request.native_body
            &&& start.step(refused) == StepView::Send(chat_request::degraded(request.native_body))
            &&& !(again.step(other) is Send)
            &&& again.step(Arrival::Accepted) is Read
            &&& answer.reply.status == 200
            &&& answer.reply.body == response::translated(
                chat,
                response_id,
                request.model,
                created_at,
                true,
                request.structured_schema,
                suffix,
            ).merged(request.metadata)
            &&& following.first_body() == chat_request::degraded(following.native_body)
            &&& !(ExchangeView { request: following, retried: false }.step(other) is Send)
        }),
{
    law_recorded_capability_is_known(
        snapshot.capabilities@,
        prepared_body(body, snapshot).capability_key,
    );
}

/// A request that is refused for any other reason is not sent again: the caller
/// gets that refusal.
pub proof fn law_other_refusals_are_passed_on(exchange: ExchangeView, status: u16, detail: String)
    requires
        !is_rejection(status),
    ensures
        exchange.step(Arrival::Refused(status, detail)) == StepView::Answer(
            proxy::upstream_error_reply(status, detail@),
        ),
        proxy::upstream_error_reply(status, detail@).status == status,
{
}

} // verus!
