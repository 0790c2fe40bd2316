//! The local proxy: which provider it serves, what it answers, and how a
//! request goes through it.

use crate::capability::CapabilityCache;
use crate::chat_request;
use crate::headers;
use crate::headers::build_upstream_headers;
use crate::ids;
use crate::json;
use crate::json::{Json, JsonView};
use crate::models::{ProviderApiType, ProviderProfile};
use crate::reasoning::{EntryView, ReasoningStore};
use crate::text;
use crate::text::same_text;
use vstd::prelude::*;

verus! {

/// The host that the proxy listens on.
pub const PROXY_HOST: &'static str = "127.0.0.1";

/// The port that the proxy listens on.
pub const PROXY_PORT: u16 = 27777;

/// The path under which the proxy answers.
pub const PROXY_BASE_PATH: &'static str = "/v1";

// ---------------------------------------------------------------------------
// Addresses
// ---------------------------------------------------------------------------

/// Whether a path segment names a version: the letter v and digits.
pub open spec fn is_version(segment: Seq<char>) -> bool {
    &&& segment.len() >= 2
    &&& segment[0] == 'v'
    &&& forall|i: int| 1 <= i < segment.len() ==> '0' <= #[trigger] segment[i] <= '9'
}

/// What stands after the last slash.
pub open spec fn last_segment(path: Seq<char>) -> Seq<char>
    decreases path.len(),
{
    if path.len() == 0 || path.last() == '/' {
        Seq::empty()
    } else {
        last_segment(path.drop_last()).push(path.last())
    }
}

/// The address of an endpoint: below the base where it names a version, else
/// below its first version.
pub open spec fn endpoint(base: Seq<char>, path: Seq<char>) -> Seq<char> {
    if is_version(last_segment(base)) {
        base + "/"@ + path
    } else {
        base + "/v1/"@ + path
    }
}

proof fn lemma_last_segment(path: Seq<char>, start: int)
    requires
        0 <= start <= path.len(),
        start > 0 ==> path[start - 1] == '/',
        forall|i: int| start <= i < path.len() ==> #[trigger] path[i] != '/',
    ensures
        last_segment(path) == path.skip(start),
    decreases path.len(),
{
    if path.len() > 0 && start < path.len() {
        let rest = path.drop_last();
        assert forall|i: int| start <= i < rest.len() implies #[trigger] rest[i] != '/' by {
            assert(path[i] != '/');
        }
        assert(path[path.len() - 1] != '/');
        lemma_last_segment(rest, start);
        assert(rest.skip(start).push(path.last()) =~= path.skip(start));
    } else {
        assert(path.skip(start) =~= Seq::<char>::empty());
    }
}

fn names_version(base: &str) -> (answer: bool)
    ensures
        answer == is_version(last_segment(base@)),
{
    let chars = text::chars_of(base);
    let mut start: usize = chars.len();
    while start > 0 && chars[start - 1] != '/'
        invariant
            start <= chars.len(),
            forall|i: int| start <= i < chars.len() ==> #[trigger] chars[i] != '/',
        decreases start,
    {
        start = start - 1;
    }
    let ghost segment = last_segment(base@);
    proof {
        lemma_last_segment(base@, start as int);
    }
    if chars.len() - start < 2 || chars[start] != 'v' {
        return false;
    }
    for index in start + 1..chars.len()
        invariant
            chars@ == base@,
            start < chars.len(),
            segment == last_segment(base@),
            segment == base@.skip(start as int),
            forall|i: int| start < i < index ==> '0' <= #[trigger] chars[i] <= '9',
    {
        if chars[index] < '0' || chars[index] > '9' {
            assert(segment[index - start] == chars[index as int]);
            return false;
        }
    }
    assert forall|i: int| 1 <= i < segment.len() implies '0' <= #[trigger] segment[i] <= '9' by {
        assert(segment[i] == chars[i + start]);
    }
    true
}

/// The address of an endpoint of a provider.
pub fn endpoint_for(base: &str, path: &str) -> (address: String)
    ensures
        address@ == endpoint(base@, path@),
{
    let mut address = base.to_owned();
    if names_version(base) {
        address.append("/");
    } else {
        address.append("/v1/");
    }
    address.append(path);
    address
}

// ---------------------------------------------------------------------------
// Answers that are not translated
// ---------------------------------------------------------------------------

/// A plain answer: a status and a JSON body.
pub struct Reply {
    pub status: u16,
    pub body: Json,
}

/// A plain answer as a mathematical value.
pub struct ReplyView {
    pub status: u16,
    pub body: JsonView,
}

impl View for Reply {
    type V = ReplyView;

    open spec fn view(&self) -> ReplyView {
        ReplyView { status: self.status, body: self.body@ }
    }
}

/// The body of an error.
pub open spec fn error_body(message: Seq<char>, kind: Seq<char>, code: Seq<char>) -> JsonView {
    json::empty_object().with(
        "error"@,
        json::empty_object().with("message"@, JsonView::Text(message)).with(
            "type"@,
            JsonView::Text(kind),
        ).with("param"@, JsonView::Null).with("code"@, JsonView::Text(code)),
    )
}

fn make_error_body(message: &str, kind: &str, code: &str) -> (body: Json)
    ensures
        body@ == error_body(message@, kind@, code@),
{
    let error = Json::object().with("message", Json::text(message)).with(
        "type",
        Json::text(kind),
    ).with("param", Json::Null).with("code", Json::text(code));
    Json::object().with("error", error)
}

/// An answer that tells of an error on the way to the provider.
pub open spec fn error_reply(status: u16, message: Seq<char>) -> ReplyView {
    ReplyView {
        status,
        body: error_body(message, "upstream_error"@, text::decimal(status as nat)),
    }
}

/// An answer that tells of an error on the way to the provider.
pub fn error_response(status: u16, message: &str) -> (reply: Reply)
    ensures
        reply@ == error_reply(status, message@),
{
    let code = text::decimal_text(status as u128);
    Reply { status, body: make_error_body(message, "upstream_error", code.as_str()) }
}

/// An answer to a request that cannot be served.
pub open spec fn refusal_reply(message: Seq<char>) -> ReplyView {
    ReplyView {
        status: 400,
        body: error_body(message, "invalid_request_error"@, "invalid_request"@),
    }
}

/// An answer to a request that cannot be served.
pub fn invalid_request_response(message: &str) -> (reply: Reply)
    ensures
        reply@ == refusal_reply(message@),
{
    Reply {
        status: 400,
        body: make_error_body(message, "invalid_request_error", "invalid_request"),
    }
}

/// The answer to a caller without the key of the proxy.
pub open spec fn unauthorized_reply() -> ReplyView {
    error_reply(401, "缺少或错误的代理访问凭证，请求已拒绝。"@)
}

/// The answer to a caller without the key of the proxy.
pub fn unauthorized_response() -> (reply: Reply)
    ensures
        reply@ == unauthorized_reply(),
{
    error_response(401, "缺少或错误的代理访问凭证，请求已拒绝。")
}

/// The answer to an error of the provider: its own words where they have the
/// usual form, else as much of them as fits.
pub open spec fn upstream_error_reply(status: u16, detail: Seq<char>) -> ReplyView {
    let number = text::decimal(status as nat);
    match json::parsed_text(detail) {
        Some(document) => if document.has("error"@) {
            ReplyView { status, body: document }
        } else {
            described_error(status, detail)
        },
        None => described_error(status, detail),
    }
}

/// An error of the provider in words.
pub open spec fn described_error(status: u16, detail: Seq<char>) -> ReplyView {
    let number = text::decimal(status as nat);
    if text::blank(detail) {
        error_reply(status, "上游服务返回 HTTP "@ + number + "。"@)
    } else {
        error_reply(
            status,
            "上游服务返回 HTTP "@ + number + "："@ + text::truncated(detail, 500),
        )
    }
}

/// The answer to an error of the provider.
pub fn upstream_error_response(status: u16, detail: &str) -> (reply: Reply)
    ensures
        reply@ == upstream_error_reply(status, detail@),
{
    if let Some(document) = Json::parse(detail) {
        if document.has("error") {
            return Reply { status, body: document };
        }
    }
    let mut message = "上游服务返回 HTTP ".to_owned();
    message.append(text::decimal_text(status as u128).as_str());
    if text::is_blank(detail) {
        message.append("。");
    } else {
        message.append("：");
        message.append(text::truncate(detail, 500).as_str());
    }
    error_response(status, message.as_str())
}

/// What kept an answer of the provider from arriving.
pub enum SendFailure {
    /// No answer began in the time that the provider is given.
    TimedOut,
    /// The connection itself gave up waiting.
    ConnectionTimedOut,
    /// The connection failed, for the given reason.
    Unreachable(String),
}

/// The answer where the provider did not answer.
pub open spec fn send_failure_reply(failure: SendFailure, timeout_secs: u64) -> ReplyView {
    let seconds = text::decimal(timeout_secs as nat);
    match failure {
        SendFailure::TimedOut => error_reply(
            504,
            "等待上游服务返回响应超时（"@ + seconds + " 秒）。"@,
        ),
        SendFailure::ConnectionTimedOut => error_reply(
            504,
            "等待上游服务响应超时（"@ + seconds + " 秒）。"@,
        ),
        SendFailure::Unreachable(reason) => error_reply(502, "无法连接上游服务："@ + reason@),
    }
}

/// The answer where the provider did not answer.
pub fn send_failure_response(failure: &SendFailure, timeout_secs: u64) -> (reply: Reply)
    ensures
        reply@ == send_failure_reply(*failure, timeout_secs),
{
    match failure {
        SendFailure::TimedOut => {
            let mut message = "等待上游服务返回响应超时（".to_owned();
            message.append(text::decimal_text(timeout_secs as u128).as_str());
            message.append(" 秒）。");
            error_response(504, message.as_str())
        },
        SendFailure::ConnectionTimedOut => {
            let mut message = "等待上游服务响应超时（".to_owned();
            message.append(text::decimal_text(timeout_secs as u128).as_str());
            message.append(" 秒）。");
            error_response(504, message.as_str())
        },
        SendFailure::Unreachable(reason) => {
            let message = text::concat("无法连接上游服务：", reason.as_str());
            error_response(502, message.as_str())
        },
    }
}

/// Whether the caller holds the key of the proxy.
pub fn is_authorized(presented: Option<&[u8]>, expected: &Vec<u8>) -> (authorized: bool)
    ensures
        authorized == (presented matches Some(presented) && presented@ == expected@),
{
    let given = match presented {
        Some(given) => given,
        None => return false,
    };
    if given.len() != expected.len() {
        return false;
    }
    for index in 0..expected.len()
        invariant
            presented == Some(given),
            given@.len() == expected.len(),
            forall|i: int| 0 <= i < index ==> #[trigger] given@[i] == expected@[i],
    {
        if given[index] != expected[index] {
            assert(given@[index as int] != expected@[index as int]);
            return false;
        }
    }
    assert(given@ =~= expected@);
    true
}

/// Whether a content type says that server-sent events follow.
pub open spec fn announces_events(content_type: Option<Seq<char>>) -> bool {
    match content_type {
        Some(content_type) => text::lowered(text::trimmed(text::before_char(content_type, ';')))
            == "text/event-stream"@,
        None => false,
    }
}

/// Whether a content type says that server-sent events follow.
pub fn is_event_stream(content_type: Option<&str>) -> (answer: bool)
    ensures
        answer == announces_events(text::text_of(content_type)),
{
    match content_type {
        Some(content_type) => {
            let media_type = text::until_char(content_type, ';');
            let media_type = text::trim(media_type.as_str());
            let media_type = text::lower(media_type.as_str());
            same_text(media_type.as_str(), "text/event-stream")
        },
        None => false,
    }
}

// ---------------------------------------------------------------------------
// The provider that the proxy serves
// ---------------------------------------------------------------------------

/// What the proxy needs to know of its provider. Without an address there is
/// no provider.
pub struct ProxyConfig {
    pub upstream_base: String,
    pub api_key: String,
    pub headers: reqwest::header::HeaderMap,
    pub timeout_secs: u64,
}

/// The configuration as a mathematical value.
pub struct ConfigView {
    pub upstream_base: Seq<char>,
    pub api_key: Seq<char>,
    pub headers: Map<Seq<char>, Seq<u8>>,
    pub timeout_secs: u64,
}

impl View for ProxyConfig {
    type V = ConfigView;

    open spec fn view(&self) -> ConfigView {
        ConfigView {
            upstream_base: self.upstream_base@,
            api_key: self.api_key@,
            headers: headers::headers_view(self.headers),
            timeout_secs: self.timeout_secs,
        }
    }
}

/// The key of a provider; the empty text where it has none.
pub open spec fn provider_key(provider: ProviderProfile) -> Seq<char> {
    match provider.api_key {
        Some(key) => key@,
        None => Seq::empty(),
    }
}

/// The configuration for a provider, but for its headers.
pub open spec fn config_for(
    provider: ProviderProfile,
    headers: Map<Seq<char>, Seq<u8>>,
) -> ConfigView {
    ConfigView {
        upstream_base: text::without_trailing(provider.base_url@, '/'),
        api_key: provider_key(provider),
        headers,
        timeout_secs: if provider.timeout_secs == 0 {
            1
        } else {
            provider.timeout_secs
        },
    }
}

/// Whether a configuration is the one for a provider: its address, its key,
/// its headers but the one that names the client, and its timeout.
pub open spec fn is_config_of(config: ConfigView, provider: ProviderProfile) -> bool {
    &&& config == config_for(provider, config.headers)
    &&& provider.headers.len() <= headers::HEADER_ROOM ==> config.headers
        == headers::upstream_headers(headers::pair_texts(provider.headers@))
    &&& !config.headers.contains_key("user-agent"@)
}

/// The configuration without a provider.
pub open spec fn disabled_config() -> ConfigView {
    ConfigView {
        upstream_base: Seq::empty(),
        api_key: Seq::empty(),
        headers: Map::empty(),
        timeout_secs: 30,
    }
}

impl ProxyConfig {
    /// The configuration for a provider.
    pub fn from_provider(provider: &ProviderProfile) -> (config: Self)
        ensures
            is_config_of(config@, *provider),
    {
        let timeout_secs: u64 = if provider.timeout_secs == 0 {
            1
        } else {
            provider.timeout_secs
        };
        let api_key = match &provider.api_key {
            Some(key) => key.clone(),
            None => String::new(),
        };
        ProxyConfig {
            upstream_base: text::trim_end_char(provider.base_url.as_str(), '/'),
            api_key,
            headers: build_upstream_headers(&provider.headers),
            timeout_secs,
        }
    }

    /// The configuration without a provider.
    pub fn disabled() -> (config: Self)
        ensures
            config@ == disabled_config(),
    {
        let pairs: Vec<(String, String)> = Vec::new();
        let config = ProxyConfig {
            upstream_base: String::new(),
            api_key: String::new(),
            headers: build_upstream_headers(&pairs),
            timeout_secs: 30,
        };
        assert(headers::pair_texts(pairs@) =~= Seq::<(Seq<char>, Seq<char>)>::empty());
        config
    }

    pub fn is_disabled(&self) -> (disabled: bool)
        ensures
            disabled == (self@.upstream_base.len() == 0),
    {
        self.upstream_base.as_str().is_empty()
    }
}

/// The pairs as the members of a JSON object.
pub open spec fn pairs_document(pairs: Seq<(Seq<char>, Seq<char>)>) -> JsonView
    decreases pairs.len(),
{
    if pairs.len() == 0 {
        json::empty_object()
    } else {
        pairs_document(pairs.drop_last()).with(pairs.last().0, JsonView::Text(pairs.last().1))
    }
}

fn make_pairs_document(pairs: &Vec<(String, String)>) -> (document: Json)
    ensures
        document@ == pairs_document(headers::pair_texts(pairs@)),
{
    let mut document = Json::object();
    let ghost views = headers::pair_texts(pairs@);
    assert(views.take(0) =~= Seq::<(Seq<char>, Seq<char>)>::empty());
    for index in 0..pairs.len()
        invariant
            views == headers::pair_texts(pairs@),
            document@ == pairs_document(views.take(index as int)),
    {
        proof {
            assert(views[index as int] == (pairs[index as int].0@, pairs[index as int].1@));
            assert(views.take(index + 1).drop_last() =~= views.take(index as int));
            assert(views.take(index + 1).last() == views[index as int]);
        }
        document.set(pairs[index].0.as_str(), Json::text(pairs[index].1.as_str()));
    }
    assert(views.take(pairs.len() as int) =~= views);
    document
}

/// What tells two configurations apart.
pub open spec fn fingerprint(provider: ProviderProfile) -> Seq<char> {
    let headers = chat_request::or_empty(
        json::compact_text(pairs_document(headers::pair_texts(provider.headers@))),
    );
    provider.base_url@ + "\n"@ + provider_key(provider) + "\n"@ + headers + "\n"@ + text::decimal(
        provider.timeout_secs as nat,
    )
}

/// What tells two configurations apart.
pub fn proxy_fingerprint(provider: &ProviderProfile) -> (print: String)
    ensures
        print@ == fingerprint(*provider),
{
    let mut print = provider.base_url.clone();
    print.append("\n");
    if let Some(key) = &provider.api_key {
        print.append(key.as_str());
    } else {
        assert(print@ + Seq::<char>::empty() =~= print@);
    }
    print.append("\n");
    let headers = match make_pairs_document(&provider.headers).render() {
        Some(headers) => headers,
        None => "".to_owned(),
    };
    print.append(headers.as_str());
    print.append("\n");
    print.append(text::decimal_text(provider.timeout_secs as u128).as_str());
    print
}

/// Which memory, and which knowledge of its provider, a proxy works with. The
/// numbers change whenever either is replaced.
#[derive(Clone, Copy, Debug, PartialEq, Eq, Structural)]
pub struct Generation {
    pub memory: u64,
    pub knowledge: u64,
}

/// What the proxy works with: its configuration, the reasoning it remembers,
/// and what it knows of its provider. By the generation an answer that is
/// still under way when the provider changes is kept from writing into the
/// memory of another provider.
pub struct ProxyRuntimeSnapshot {
    pub config: ProxyConfig,
    pub reasoning_store: ReasoningStore,
    pub capabilities: CapabilityCache,
    pub generation: Generation,
}

/// The memory and the knowledge, while an answer is written into them.
pub struct Lent {
    pub reasoning_store: ReasoningStore,
    pub capabilities: CapabilityCache,
}

impl ProxyRuntimeSnapshot {
    pub open spec fn wf(self) -> bool {
        self.reasoning_store.wf() && self.capabilities.wf()
    }

    /// Lends the memory and the knowledge to an answer that began in the
    /// given generation. What has been replaced since then is stood in for by
    /// something empty.
    pub fn lend(&mut self, since: Generation) -> (lent: Lent)
        requires
            old(self).wf(),
        ensures
            final(self).wf(),
            lent.reasoning_store.wf(),
            lent.capabilities.wf(),
            final(self).config == old(self).config,
            final(self).generation == old(self).generation,
            if since.memory == old(self).generation.memory {
                &&& lent.reasoning_store@ == old(self).reasoning_store@
                &&& final(self).reasoning_store@ == Seq::<EntryView>::empty()
            } else {
                &&& lent.reasoning_store@ == Seq::<EntryView>::empty()
                &&& final(self).reasoning_store@ == old(self).reasoning_store@
            },
            if since.knowledge == old(self).generation.knowledge {
                &&& lent.capabilities@ == old(self).capabilities@
                &&& final(self).capabilities@ == Set::<Seq<char>>::empty()
            } else {
                &&& lent.capabilities@ == Set::<Seq<char>>::empty()
                &&& final(self).capabilities@ == old(self).capabilities@
            },
    {
        let mut reasoning_store = ReasoningStore::default();
        let mut capabilities = CapabilityCache::default();
        if since.memory == self.generation.memory {
            std::mem::swap(&mut reasoning_store, &mut self.reasoning_store);
        }
        if since.knowledge == self.generation.knowledge {
            std::mem::swap(&mut capabilities, &mut self.capabilities);
        }
        Lent { reasoning_store, capabilities }
    }

    /// Takes back what was lent. What has been replaced is let go of.
    pub fn take_back(&mut self, since: Generation, lent: Lent)
        requires
            old(self).wf(),
            lent.reasoning_store.wf(),
            lent.capabilities.wf(),
        ensures
            final(self).wf(),
            final(self).config == old(self).config,
            final(self).generation == old(self).generation,
            final(self).reasoning_store@ == if since.memory == old(self).generation.memory {
                lent.reasoning_store@
            } else {
                old(self).reasoning_store@
            },
            final(self).capabilities@ == if since.knowledge == old(self).generation.knowledge {
                lent.capabilities@
            } else {
                old(self).capabilities@
            },
    {
        if since.memory == self.generation.memory {
            self.reasoning_store = lent.reasoning_store;
        }
        if since.knowledge == self.generation.knowledge {
            self.capabilities = lent.capabilities;
        }
    }
}

/// A proxy that runs.
pub struct RunningProxy {
    pub port: u16,
    pub fingerprint: String,
    pub owner: String,
    pub proxy_api_key: String,
    pub snapshot: ProxyRuntimeSnapshot,
}

/// The one proxy of the application, once it runs.
pub struct ChatProxyRegistry {
    pub single: Option<RunningProxy>,
}

impl RunningProxy {
    pub open spec fn wf(self) -> bool {
        self.snapshot.wf() && self.is_tied()
    }

    /// Whether requests go out under the configuration that the fingerprint
    /// stands for: that of some provider, or none.
    pub open spec fn is_tied(self) -> bool {
        ||| self.fingerprint@.len() == 0 && self.snapshot.config@ == disabled_config()
        ||| exists|provider: ProviderProfile| #[trigger]
            fingerprint(provider) == self.fingerprint@ && is_config_of(
                self.snapshot.config@,
                provider,
            )
    }

    /// Whether the proxy serves a provider: it is the owner, and requests go
    /// out under its configuration.
    pub open spec fn serves(self, provider: ProviderProfile) -> bool {
        &&& self.owner@ == provider.id@
        &&& self.fingerprint@ == fingerprint(provider)
        &&& is_config_of(self.snapshot.config@, provider)
    }

    /// Whether the proxy serves no provider.
    pub open spec fn serves_nobody(self) -> bool {
        &&& self.owner@.len() == 0
        &&& self.fingerprint@.len() == 0
        &&& self.snapshot.config@ == disabled_config()
    }

    /// Whether the memory and what is known of the provider are empty.
    pub open spec fn forgets_reasoning(self) -> bool {
        self.snapshot.reasoning_store@ == Seq::<EntryView>::empty()
    }

    pub open spec fn knows_nothing(self) -> bool {
        self.snapshot.capabilities@ == Set::<Seq<char>>::empty()
    }

    /// Makes the proxy serve a provider. The port and the key stay. A new
    /// owner or a new configuration begins with an empty memory; a new
    /// configuration begins without any knowledge of its provider.
    pub fn switch_to(&mut self, provider: &ProviderProfile)
        requires
            old(self).wf(),
        ensures
            final(self).wf(),
            switched(*old(self), *final(self), *provider),
    {
        let print = proxy_fingerprint(provider);
        let owner_changed = !same_text(self.owner.as_str(), provider.id.as_str());
        let config_changed = !same_text(self.fingerprint.as_str(), print.as_str());
        let mut generation = self.snapshot.generation;
        if config_changed {
            self.snapshot.config = ProxyConfig::from_provider(provider);
            self.snapshot.capabilities = CapabilityCache::default();
            generation.knowledge = generation.knowledge.wrapping_add(1);
            self.fingerprint = print;
        }
        if owner_changed || config_changed {
            self.snapshot.reasoning_store = ReasoningStore::default();
            generation.memory = generation.memory.wrapping_add(1);
        }
        self.snapshot.generation = generation;
        self.owner = provider.id.clone();
    }
}

/// What changes where a proxy turns to a provider. The port and the key stay.
/// A new owner or a new configuration begins with an empty memory; a new
/// configuration begins without any knowledge of its provider.
pub open spec fn switched(
    before: RunningProxy,
    after: RunningProxy,
    provider: ProviderProfile,
) -> bool {
    let config_changed = before.fingerprint@ != fingerprint(provider);
    let changed = config_changed || before.owner@ != provider.id@;
    &&& after.port == before.port
    &&& after.proxy_api_key@ == before.proxy_api_key@
    &&& after.owner@ == provider.id@
    &&& after.fingerprint@ == fingerprint(provider)
    &&& config_changed ==> {
        &&& is_config_of(after.snapshot.config@, provider)
        &&& after.knows_nothing()
        &&& after.snapshot.generation.knowledge == next_number(
            before.snapshot.generation.knowledge,
        )
    }
    &&& !config_changed ==> {
        &&& after.snapshot.config@ == before.snapshot.config@
        &&& after.snapshot.capabilities@ == before.snapshot.capabilities@
        &&& after.snapshot.generation.knowledge == before.snapshot.generation.knowledge
    }
    &&& if changed {
        &&& after.forgets_reasoning()
        &&& after.snapshot.generation.memory == next_number(before.snapshot.generation.memory)
    } else {
        &&& after.snapshot.reasoning_store@ == before.snapshot.reasoning_store@
        &&& after.snapshot.generation.memory == before.snapshot.generation.memory
    }
}

/// The number after another one.
pub open spec fn next_number(number: u64) -> u64 {
    if number == u64::MAX {
        0
    } else {
        (number + 1) as u64
    }
}

impl Default for ChatProxyRegistry {
    /// No proxy runs yet.
    fn default() -> (registry: Self)
        ensures
            registry.single is None,
            registry.wf(),
    {
        ChatProxyRegistry { single: None }
    }
}

impl ChatProxyRegistry {
    pub open spec fn wf(self) -> bool {
        self.single matches Some(running) ==> running.wf()
    }

    /// Makes the proxy serve a provider and gives its port and its key.
    /// Gives nothing where no proxy runs yet: one has to be started first.
    pub fn ensure(&mut self, provider: &ProviderProfile) -> (target: Option<(u16, String)>)
        requires
            old(self).wf(),
        ensures
            final(self).wf(),
            target is Some <==> old(self).single is Some,
            old(self).single is None ==> final(self).single is None,
            old(self).single matches Some(before) ==> ({
                &&& final(self).single matches Some(after)
                &&& target matches Some(target)
                &&& target.0 == before.port
                &&& target.1@ == before.proxy_api_key@
                &&& switched(before, after, *provider)
            }),
    {
        match self.single.take() {
            Some(running) => {
                let mut running = running;
                running.switch_to(provider);
                let target = (running.port, running.proxy_api_key.clone());
                self.single = Some(running);
                Some(target)
            },
            None => None,
        }
    }

    /// Notes that a proxy was started for a provider.
    pub fn started(&mut self, provider: &ProviderProfile, port: u16, proxy_api_key: String)
        requires
            old(self).wf(),
        ensures
            final(self).wf(),
            final(self).single matches Some(running) && running.port == port
                && running.proxy_api_key@ == proxy_api_key@ && running.serves(*provider)
                && running.forgets_reasoning() && running.knows_nothing()
                && running.snapshot.generation == (Generation { memory: 0, knowledge: 0 }),
    {
        self.single =
        Some(
            RunningProxy {
                port,
                fingerprint: proxy_fingerprint(provider),
                owner: provider.id.clone(),
                proxy_api_key,
                snapshot: ProxyRuntimeSnapshot {
                    config: ProxyConfig::from_provider(provider),
                    reasoning_store: ReasoningStore::default(),
                    capabilities: CapabilityCache::default(),
                    generation: Generation { memory: 0, knowledge: 0 },
                },
            },
        );
    }

    /// Notes that a provider was deleted. The proxy goes on without a
    /// provider where it served that one, and does not change otherwise.
    pub fn stop(&mut self, provider_id: &str)
        requires
            old(self).wf(),
        ensures
            final(self).wf(),
            final(self).single is Some <==> old(self).single is Some,
            old(self).single matches Some(before) ==> final(self).single matches Some(after)
                && after.port == before.port && after.proxy_api_key@ == before.proxy_api_key@ && (
            if before.owner@ == provider_id@ {
                &&& after.snapshot.config@ == disabled_config()
                &&& after.forgets_reasoning()
                &&& after.knows_nothing()
                &&& after.owner@.len() == 0
                &&& after.fingerprint@.len() == 0
                &&& after.snapshot.generation == (Generation {
                    memory: next_number(before.snapshot.generation.memory),
                    knowledge: next_number(before.snapshot.generation.knowledge),
                })
            } else {
                after == before
            }),
    {
        match self.single.take() {
            Some(running) => {
                let mut running = running;
                if same_text(running.owner.as_str(), provider_id) {
                    let generation = Generation {
                        memory: running.snapshot.generation.memory.wrapping_add(1),
                        knowledge: running.snapshot.generation.knowledge.wrapping_add(1),
                    };
                    running.snapshot =
                    ProxyRuntimeSnapshot {
                        config: ProxyConfig::disabled(),
                        reasoning_store: ReasoningStore::default(),
                        capabilities: CapabilityCache::default(),
                        generation,
                    };
                    running.fingerprint = String::new();
                    running.owner = String::new();
                }
                self.single = Some(running);
            },
            None => {},
        }
    }

    /// Lets go of the proxy, and says whether one ran.
    pub fn stop_all(&mut self) -> (ran: bool)
        ensures
            final(self).single is None,
            final(self).wf(),
            ran == (old(self).single is Some),
    {
        self.single.take().is_some()
    }
}

/// Where Codex is sent, and the key that it uses there.
pub struct ActivationTarget {
    pub base_url: String,
    pub proxy_api_key: Option<String>,
}

/// The address of the proxy.
pub open spec fn proxy_address(port: u16) -> Seq<char> {
    "http://127.0.0.1:"@ + text::decimal(port as nat) + "/v1"@
}

/// Where Codex is sent for a provider. A provider that speaks the Responses
/// API is reached directly; for one that does not, nothing is given until the
/// proxy runs.
pub fn effective_base_url(provider: &ProviderProfile, registry: &mut ChatProxyRegistry) -> (target:
    Option<ActivationTarget>)
    requires
        old(registry).wf(),
    ensures
        final(registry).wf(),
        provider.api_type is Responses ==> *final(registry) == *old(registry),
        provider.api_type is Responses ==> (target matches Some(target) && target.base_url@
            == provider.base_url@ && target.proxy_api_key is None),
        provider.api_type is Chat ==> (target is Some <==> old(registry).single is Some),
        provider.api_type is Chat && old(registry).single is Some ==> (final(registry).single
            matches Some(after) && switched(old(registry).single->0, after, *provider)),
        provider.api_type is Chat && old(registry).single is None ==> final(registry).single is None,
        provider.api_type is Chat && old(registry).single is Some ==> (target matches Some(target)
            && target.base_url@ == proxy_address(old(registry).single->0.port)
            && text::string_of(target.proxy_api_key) == Some(
            old(registry).single->0.proxy_api_key@,
        )),
{
    match provider.api_type {
        ProviderApiType::Responses => Some(
            ActivationTarget { base_url: provider.base_url.clone(), proxy_api_key: None },
        ),
        ProviderApiType::Chat => match registry.ensure(provider) {
            Some((port, key)) => {
                let mut base_url = "http://127.0.0.1:".to_owned();
                base_url.append(text::decimal_text(port as u128).as_str());
                base_url.append("/v1");
                Some(ActivationTarget { base_url, proxy_api_key: Some(key) })
            },
            None => None,
        },
    }
}

/// A key for the proxy: three random identifiers in a row.
pub fn make_proxy_key() -> (key: String)
    ensures
        key@.len() == 108,
        ids::is_hyphenated_id(key@.subrange(0, 36)),
        ids::is_hyphenated_id(key@.subrange(36, 72)),
        ids::is_hyphenated_id(key@.subrange(72, 108)),
{
    let first = ids::random_hyphenated_id();
    let second = ids::random_hyphenated_id();
    let third = ids::random_hyphenated_id();
    let key = text::concat(text::concat(first.as_str(), second.as_str()).as_str(), third.as_str());
    assert(key@.subrange(0, 36) =~= first@);
    assert(key@.subrange(36, 72) =~= second@);
    assert(key@.subrange(72, 108) =~= third@);
    key
}

/// The header that a caller of the proxy has to send.
pub fn authorization_for(proxy_api_key: &str) -> (header: String)
    ensures
        header@ == "Bearer "@ + proxy_api_key@,
{
    text::concat("Bearer ", proxy_api_key)
}

/// An answer that was under way when the proxy turned to another provider
/// reaches neither the memory nor the knowledge of the new one.
pub proof fn law_late_answers_do_not_cross(
    before: RunningProxy,
    after: RunningProxy,
    provider: ProviderProfile,
)
    requires
        switched(before, after, provider),
    ensures
        before.owner@ != provider.id@ ==> before.snapshot.generation.memory
            != after.snapshot.generation.memory,
        before.fingerprint@ != fingerprint(provider) ==> {
            &&& before.snapshot.generation.memory != after.snapshot.generation.memory
            &&& before.snapshot.generation.knowledge != after.snapshot.generation.knowledge
        },
{
}

/// Whether two providers have the same settings, as far as requests go.
pub open spec fn same_settings(one: ProviderProfile, other: ProviderProfile) -> bool {
    &&& one.base_url@ == other.base_url@
    &&& provider_key(one) == provider_key(other)
    &&& one.timeout_secs == other.timeout_secs
    &&& pairs_document(headers::pair_texts(one.headers@)) == pairs_document(
        headers::pair_texts(other.headers@),
    )
    &&& headers::upstream_headers(headers::pair_texts(one.headers@)) == headers::upstream_headers(
        headers::pair_texts(other.headers@),
    )
    &&& one.headers.len() == other.headers.len()
}

/// A proxy that serves one provider and is asked to serve another keeps its
/// port and its key, and from then on sends requests under the settings of the
/// other one. Where the two differ in their identity or in any setting, nothing
/// that was remembered before can be looked up any more. The texts that tell
/// settings apart have to do so: an address with a line feed can make two
/// different settings look alike.
pub proof fn law_proxy_turns_to_a_provider(
    before: RunningProxy,
    after: RunningProxy,
    one: ProviderProfile,
    other: ProviderProfile,
)
    requires
        before.serves(one),
        switched(before, after, other),
        fingerprint(one) == fingerprint(other) ==> same_settings(one, other),
    ensures
        after.serves(other),
        after.port == before.port,
        after.proxy_api_key@ == before.proxy_api_key@,
        one.id@ != other.id@ || !same_settings(one, other) ==> after.forgets_reasoning(),
        !same_settings(one, other) ==> after.knows_nothing(),
{
}

/// A proxy whose provider was deleted, and that is asked to serve a provider,
/// sends requests under the settings of that one and remembers nothing.
pub proof fn law_proxy_takes_up_a_provider(
    before: RunningProxy,
    after: RunningProxy,
    provider: ProviderProfile,
)
    requires
        before.serves_nobody(),
        switched(before, after, provider),
    ensures
        after.serves(provider),
        after.port == before.port,
        after.proxy_api_key@ == before.proxy_api_key@,
        after.forgets_reasoning(),
        after.knows_nothing(),
{
    reveal_strlit("\n");
    assert(fingerprint(provider).len() > 0);
}

} // verus!
