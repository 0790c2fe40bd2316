//! What the proxy sends on, and what it answers.

use crate::chat_request;
use crate::exchange;
use crate::exchange::{
    capability_key, prepared, prepared_body, Arrival, BodyRead, ExchangeView, FallbackView,
    ModelsRead, PreparedView, StepView,
};
use crate::headers;
use crate::json;
use crate::json::JsonView;
use crate::models::ProviderProfile;
use crate::proxy;
use crate::proxy::{
    endpoint, error_body, error_reply, last_segment, pairs_document, ConfigView,
    ProxyRuntimeSnapshot, ReplyView, SendFailure,
};
use crate::pump::ContextView;
use crate::reasoning::EntryView;
use crate::request;
use crate::response;
use crate::text;
use crate::text_laws;
use vstd::prelude::*;

verus! {

proof fn lemma_reply_words()
    ensures
        "error"@.len() == 5,
        "message"@.len() == 7,
        "type"@.len() == 4,
        "param"@.len() == 5,
        "code"@.len() == 4,
        "response_format"@.len() == 15,
        "model"@.len() == 5,
        "stream"@.len() == 6,
        "data"@.len() == 4,
        "choices"@.len() == 7,
        "models"@.len() == 6,
        "id"@.len() == 2,
        "status"@.len() == 6,
        "error"@ != "param"@,
        "error"@ != "model"@,
        "message"@ != "choices"@,
        "type"@ != "code"@,
        "type"@ != "data"@,
        "param"@ != "model"@,
        "code"@ != "data"@,
        "stream"@ != "models"@,
        "stream"@ != "status"@,
        "models"@ != "status"@,
{
    reveal_strlit("error");
    reveal_strlit("message");
    reveal_strlit("type");
    reveal_strlit("param");
    reveal_strlit("code");
    reveal_strlit("response_format");
    reveal_strlit("model");
    reveal_strlit("stream");
    reveal_strlit("data");
    reveal_strlit("choices");
    reveal_strlit("models");
    reveal_strlit("id");
    reveal_strlit("status");
    assert("error"@[0] != "param"@[0]);
    assert("error"@[0] != "model"@[0]);
    assert("message"@[0] != "choices"@[0]);
    assert("type"@[0] != "code"@[0]);
    assert("type"@[0] != "data"@[0]);
    assert("param"@[0] != "model"@[0]);
    assert("code"@[0] != "data"@[0]);
    assert("stream"@[0] != "models"@[0]);
    assert("stream"@[2] != "status"@[2]);
    assert("models"@[0] != "status"@[0]);
}

// ---------------------------------------------------------------------------
// Addresses
// ---------------------------------------------------------------------------

proof fn lemma_last_segment(root: Seq<char>, segment: Seq<char>)
    requires
        !segment.contains('/'),
    ensures
        last_segment(root.push('/') + segment) == segment,
    decreases segment.len(),
{
    let base = root.push('/') + segment;
    if segment.len() == 0 {
        assert(base =~= root.push('/'));
        assert(last_segment(base) =~= segment);
    } else {
        let rest = segment.drop_last();
        assert forall|k: int| 0 <= k < rest.len() implies rest[k] != '/' by {
            assert(segment.contains(segment[k]));
            assert(rest[k] == segment[k]);
        }
        assert(segment.contains(segment[segment.len() - 1]));
        lemma_last_segment(root, rest);
        assert(base.drop_last() =~= root.push('/') + rest);
        assert(last_segment(base) =~= segment);
    }
}

/// A path is asked for under the base of a service. A base that ends in a version,
/// such as `v1`, is taken as it is; to any other the first version is added.
pub proof fn law_paths_are_below_the_version(
    root: Seq<char>,
    segment: Seq<char>,
    path: Seq<char>,
)
    requires
        !segment.contains('/'),
    ensures
        segment.len() >= 2 && segment[0] == 'v' && (forall|i: int|
            1 <= i < segment.len() ==> '0' <= #[trigger] segment[i] <= '9') ==> endpoint(
            root.push('/') + segment,
            path,
        ) == root.push('/') + segment + "/"@ + path,
        segment.len() < 2 || segment[0] != 'v' || !('0' <= segment[1] <= '9') ==> endpoint(
            root.push('/') + segment,
            path,
        ) == root.push('/') + segment + "/v1/"@ + path,
{
    lemma_last_segment(root, segment);
}

// ---------------------------------------------------------------------------
// Replies
// ---------------------------------------------------------------------------

/// Whether a body tells of an error, in these words.
pub open spec fn tells(body: JsonView, message: Seq<char>, kind: Seq<char>, code: Seq<char>) -> bool {
    &&& body.get_in("error"@, "message"@) == Some(JsonView::Text(message))
    &&& body.get_in("error"@, "type"@) == Some(JsonView::Text(kind))
    &&& body.get_in("error"@, "code"@) == Some(JsonView::Text(code))
    &&& body.get_in("error"@, "param"@) == Some(JsonView::Null)
}

proof fn lemma_error_body(message: Seq<char>, kind: Seq<char>, code: Seq<char>)
    ensures
        tells(error_body(message, kind, code), message, kind, code),
{
    lemma_reply_words();
    let error = json::empty_object().with("message"@, JsonView::Text(message)).with(
        "type"@,
        JsonView::Text(kind),
    ).with("param"@, JsonView::Null).with("code"@, JsonView::Text(code));
    assert(error.get("message"@) == Some(JsonView::Text(message)));
    assert(error.get("type"@) == Some(JsonView::Text(kind)));
    assert(error.get("param"@) == Some(JsonView::Null));
    assert(error.get("code"@) == Some(JsonView::Text(code)));
    assert(error_body(message, kind, code).get("error"@) == Some(error));
}

/// An error is answered with its status and its message, and a request that cannot
/// be served with the status for that.
pub proof fn law_errors_are_answered(status: u16, message: Seq<char>)
    ensures
        error_reply(status, message).status == status,
        tells(
            error_reply(status, message).body,
            message,
            "upstream_error"@,
            text::decimal(status as nat),
        ),
        proxy::refusal_reply(message).status == 400,
        tells(
            proxy::refusal_reply(message).body,
            message,
            "invalid_request_error"@,
            "invalid_request"@,
        ),
        proxy::unauthorized_reply().status == 401,
        proxy::unauthorized_reply().body.has("error"@),
        exchange::no_provider_reply().status == 503,
        exchange::no_provider_reply().body.has("error"@),
{
    lemma_error_body(message, "upstream_error"@, text::decimal(status as nat));
    lemma_error_body(message, "invalid_request_error"@, "invalid_request"@);
}

/// An error of the service is passed on with its status: as it is, where it is one
/// in JSON, or else with the beginning of its text.
pub proof fn law_errors_of_the_service_are_passed_on(
    status: u16,
    detail: Seq<char>,
    document: JsonView,
)
    ensures
        ({
            let reply = proxy::upstream_error_reply(status, detail);
            &&& reply.status == status
            &&& json::parsed_text(detail) == Some(document) && document.has("error"@)
                ==> reply.body == document
            &&& json::parsed_text(detail) is None && !text::blank(detail) ==> (
            reply.body.get_in("error"@, "message"@) matches Some(JsonView::Text(message))
                && text::finishes_with(message, text::truncated(detail, 500)) && text::occurs(
                message,
                text::decimal(status as nat),
            ))
            &&& json::parsed_text(detail) is None && text::blank(detail) ==> (reply.body.get_in(
                "error"@,
                "message"@,
            ) matches Some(JsonView::Text(message)) && text::occurs(
                message,
                text::decimal(status as nat),
            ))
        }),
{
    let number = text::decimal(status as nat);
    let start = "上游服务返回 HTTP "@;
    let shown = text::truncated(detail, 500);
    let long = start + number + "："@ + shown;
    let short = start + number + "。"@;
    assert(long.skip(long.len() - shown.len()) =~= shown);
    assert(long.subrange(start.len() as int, (start.len() + number.len()) as int) =~= number);
    assert(short.subrange(start.len() as int, (start.len() + number.len()) as int) =~= number);
    assert(text::occurs_at(long, number, start.len() as int));
    assert(text::occurs_at(short, number, start.len() as int));
    lemma_error_body(long, "upstream_error"@, number);
    lemma_error_body(short, "upstream_error"@, number);
}

/// A request that could not be sent is answered by why: that time ran out, with how
/// long it was, or that the service could not be reached, with the reason.
pub proof fn law_failures_to_send_are_answered(
    failure: SendFailure,
    timeout_secs: u64,
)
    ensures
        ({
            let reply = proxy::send_failure_reply(failure, timeout_secs);
            &&& failure is Unreachable ==> reply.status == 502
            &&& !(failure is Unreachable) ==> reply.status == 504
            &&& reply.body.get_in("error"@, "message"@) matches Some(JsonView::Text(message))
            &&& failure matches SendFailure::Unreachable(reason) ==> text::finishes_with(
                message,
                reason@,
            )
            &&& !(failure is Unreachable) ==> text::occurs(
                message,
                text::decimal(timeout_secs as nat),
            )
        }),
{
    let seconds = text::decimal(timeout_secs as nat);
    match failure {
        SendFailure::TimedOut => {
            let start = "等待上游服务返回响应超时（"@;
            let message = start + seconds + " 秒）。"@;
            assert(message.subrange(start.len() as int, (start.len() + seconds.len()) as int)
                =~= seconds);
            assert(text::occurs_at(message, seconds, start.len() as int));
            lemma_error_body(message, "upstream_error"@, text::decimal(504));
        },
        SendFailure::ConnectionTimedOut => {
            let start = "等待上游服务响应超时（"@;
            let message = start + seconds + " 秒）。"@;
            assert(message.subrange(start.len() as int, (start.len() + seconds.len()) as int)
                =~= seconds);
            assert(text::occurs_at(message, seconds, start.len() as int));
            lemma_error_body(message, "upstream_error"@, text::decimal(504));
        },
        SendFailure::Unreachable(reason) => {
            let message = "无法连接上游服务："@ + reason@;
            assert(message.skip(message.len() - reason@.len()) =~= reason@);
            lemma_error_body(message, "upstream_error"@, text::decimal(502));
        },
    }
}

// ---------------------------------------------------------------------------
// Settings
// ---------------------------------------------------------------------------

/// The settings of a service are those of its profile: its address without slashes
/// at the end, its key, its headers and its time, of at least a second.
pub proof fn law_settings_are_those_of_the_profile(config: ConfigView, provider: ProviderProfile)
    requires
        proxy::is_config_of(config, provider),
    ensures
        text::begins_with(provider.base_url@, config.upstream_base),
        config.upstream_base.len() > 0 ==> config.upstream_base.last() != '/',
        forall|i: int|
            config.upstream_base.len() <= i < provider.base_url@.len()
                ==> #[trigger] provider.base_url@[i] == '/',
        provider.api_key matches Some(key) ==> config.api_key == key@,
        provider.api_key is None ==> config.api_key.len() == 0,
        config.timeout_secs >= 1,
        provider.timeout_secs >= 1 ==> config.timeout_secs == provider.timeout_secs,
        provider.headers.len() <= headers::HEADER_ROOM ==> config.headers
            == headers::upstream_headers(headers::pair_texts(provider.headers@)),
{
    lemma_slashes(provider.base_url@);
}

proof fn lemma_slashes(base: Seq<char>)
    ensures
        ({
            let kept = text::without_trailing(base, '/');
            &&& text::begins_with(base, kept)
            &&& kept.len() > 0 ==> kept.last() != '/'
            &&& forall|i: int| kept.len() <= i < base.len() ==> #[trigger] base[i] == '/'
        }),
    decreases base.len(),
{
    let kept = text::without_trailing(base, '/');
    if base.len() > 0 && base.last() == '/' {
        let rest = base.drop_last();
        lemma_slashes(rest);
        assert(base.take(kept.len() as int) =~= rest.take(kept.len() as int));
        assert forall|i: int| kept.len() <= i < base.len() implies #[trigger] base[i] == '/' by {
            if i < rest.len() {
                assert(rest[i] == base[i]);
            }
        }
    } else {
        assert(base.take(base.len() as int) =~= base);
    }
}

/// The last value of a name is the one that its document holds.
pub proof fn law_pairs_are_in_the_document(pairs: Seq<(Seq<char>, Seq<char>)>, i: int)
    requires
        0 <= i < pairs.len(),
        forall|k: int| i < k < pairs.len() ==> (#[trigger] pairs[k]).0 != pairs[i].0,
    ensures
        pairs_document(pairs) is Object,
        pairs_document(pairs).text_at(pairs[i].0) == Some(pairs[i].1),
    decreases pairs.len(),
{
    let rest = pairs.drop_last();
    lemma_pairs(rest);
    if i < rest.len() {
        assert(rest[i] == pairs[i]);
        assert forall|k: int| i < k < rest.len() implies (#[trigger] rest[k]).0 != rest[i].0 by {
            assert(rest[k] == pairs[k]);
        }
        law_pairs_are_in_the_document(rest, i);
        assert(pairs[pairs.len() - 1].0 != pairs[i].0);
    }
}

proof fn lemma_pairs(pairs: Seq<(Seq<char>, Seq<char>)>)
    ensures
        pairs_document(pairs) is Object,
    decreases pairs.len(),
{
    if pairs.len() > 0 {
        lemma_pairs(pairs.drop_last());
    }
}

/// The print of a profile tells its address and its key, its headers and its time;
/// profiles that differ only in their time have prints that differ.
pub proof fn law_prints_tell_the_settings(one: ProviderProfile, other: ProviderProfile)
    ensures
        text::begins_with(
            proxy::fingerprint(one),
            one.base_url@ + "\n"@ + proxy::provider_key(one) + "\n"@,
        ),
        text::finishes_with(
            proxy::fingerprint(one),
            "\n"@ + text::decimal(one.timeout_secs as nat),
        ),
        forall|printed: Seq<char>|
            json::compact_text(pairs_document(headers::pair_texts(one.headers@))) == Some(printed)
                ==> #[trigger] text::occurs(proxy::fingerprint(one), printed),
        one.base_url@ == other.base_url@ && proxy::provider_key(one) == proxy::provider_key(other)
            && headers::pair_texts(one.headers@) == headers::pair_texts(other.headers@)
            && one.timeout_secs != other.timeout_secs ==> proxy::fingerprint(one)
            != proxy::fingerprint(other),
{
    let print = proxy::fingerprint(one);
    let start = one.base_url@ + "\n"@ + proxy::provider_key(one) + "\n"@;
    let end = "\n"@ + text::decimal(one.timeout_secs as nat);
    let shown = chat_request::or_empty(
        json::compact_text(pairs_document(headers::pair_texts(one.headers@))),
    );
    assert(print.take(start.len() as int) =~= start);
    assert(print.skip(print.len() - end.len()) =~= end);
    assert(print.subrange(start.len() as int, (start.len() + shown.len()) as int) =~= shown);
    assert(text::occurs_at(print, shown, start.len() as int));
    if one.base_url@ == other.base_url@ && proxy::provider_key(one) == proxy::provider_key(other)
        && headers::pair_texts(one.headers@) == headers::pair_texts(other.headers@)
        && proxy::fingerprint(one) == proxy::fingerprint(other) {
        let mark = start + shown + "\n"@;
        assert(print.skip(mark.len() as int) =~= text::decimal(one.timeout_secs as nat));
        assert(proxy::fingerprint(other).skip(mark.len() as int) =~= text::decimal(
            other.timeout_secs as nat,
        ));
        text_laws::law_decimals_differ(one.timeout_secs as nat, other.timeout_secs as nat);
    }
}

proof fn lemma_before_mark(start: Seq<char>, rest: Seq<char>, c: char)
    requires
        !start.contains(c),
        rest.len() == 0 || rest[0] == c,
    ensures
        text::before_char(start + rest, c) == start,
    decreases start.len(),
{
    if start.len() == 0 {
        assert(start + rest =~= rest);
        assert(text::before_char(start + rest, c) =~= start);
    } else {
        let less = start.drop_first();
        assert(start.contains(start[0]));
        assert forall|k: int| 0 <= k < less.len() implies less[k] != c by {
            assert(start.contains(start[k + 1]));
        }
        lemma_before_mark(less, rest, c);
        assert((start + rest).drop_first() =~= less + rest);
        assert(text::before_char(start + rest, c) =~= start);
    }
}

/// A content type is that of events whatever parameters follow it; an answer
/// without a content type is not one of events.
pub proof fn law_events_are_announced(rest: Seq<char>)
    requires
        rest.len() == 0 || rest[0] == ';',
    ensures
        proxy::announces_events(Some("text/event-stream"@ + rest)),
        !proxy::announces_events(None),
        !proxy::announces_events(Some("application/json"@ + rest)),
{
    reveal_strlit("text/event-stream");
    reveal_strlit("application/json");
    let events = "text/event-stream"@;
    let other = "application/json"@;
    assert(events.len() == 17 && other.len() == 16);
    lemma_before_mark(events, rest, ';');
    lemma_before_mark(other, rest, ';');
    reveal_with_fuel(text::trimmed_start, 2);
    reveal_with_fuel(text::trimmed_end, 2);
    assert(text::trimmed(events) == events);
    assert(text::trimmed(other) == other);
    assert(text::lowered(events) =~= events);
    assert(text::lowered(other).len() == 16);
}

// ---------------------------------------------------------------------------
// Requests
// ---------------------------------------------------------------------------

/// What a service is known not to do is kept by model and by the type of format:
/// the key begins with the model and ends with the type.
pub proof fn law_capability_keys(model: Seq<char>, chat: JsonView, kind: Seq<char>)
    requires
        chat.get_in("response_format"@, "type"@) == Some(JsonView::Text(kind)),
    ensures
        text::begins_with(capability_key(model, chat), model),
        text::finishes_with(capability_key(model, chat), kind),
        capability_key(model, chat).len() == model.len() + 1 + kind.len(),
        capability_key(model, chat)[model.len() as int] == '\n',
{
    reveal_strlit("\n");
    let key = capability_key(model, chat);
    assert(key.take(model.len() as int) =~= model);
    assert(key.skip(key.len() - kind.len()) =~= kind);
}

/// A request that is sent on is one of a client that is known, whose body is an
/// object that can be served. It goes to the service in use, names the model that
/// was asked for, and is streamed where that was asked for.
pub proof fn law_what_is_sent_on(
    presented: Option<Seq<u8>>,
    expected: Seq<u8>,
    body: Seq<u8>,
    snapshot: ProxyRuntimeSnapshot,
    ready: PreparedView,
)
    requires
        prepared(presented, expected, body, snapshot) == Ok::<PreparedView, ReplyView>(ready),
    ensures
        presented == Some(expected),
        snapshot.config@.upstream_base.len() > 0,
        json::parsed_bytes(body) matches Some(document) && {
            &&& document is Object
            &&& request::request_problem(document) is None
            &&& document.text_at("model"@) == Some(ready.model)
            &&& ready.stream <==> document.get("stream"@) == Some(JsonView::Bool(true))
            &&& ready.native_body == chat_request::chat_body(document, snapshot.reasoning_store@)
            &&& ready.metadata == response::request_metadata(document)
            &&& ready.timeout_secs == snapshot.config@.timeout_secs
            &&& ready.url == endpoint(snapshot.config@.upstream_base, "chat/completions"@)
            &&& ready.prompted ==> ready.native_body.has("response_format"@)
        },
{
}

/// A request of a client that is known, with a body that can be served, is sent on
/// where there is a service.
pub proof fn law_sound_requests_are_sent_on(
    expected: Seq<u8>,
    body: Seq<u8>,
    document: JsonView,
    snapshot: ProxyRuntimeSnapshot,
)
    requires
        json::parsed_bytes(body) == Some(document),
        document is Object,
    ensures
        request::request_problem(document) is None && snapshot.config@.upstream_base.len() > 0
            ==> prepared(Some(expected), expected, body, snapshot) is Ok,
        request::request_problem(document) matches Some(problem) ==> (prepared(
            Some(expected),
            expected,
            body,
            snapshot,
        ) matches Err(reply) && reply.status == 400 && reply.body.get_in("error"@, "message"@)
            == Some(JsonView::Text(problem))),
{
    if let Some(problem) = request::request_problem(document) {
        law_errors_are_answered(400, problem);
    }
}

/// A format that the service is known not to take is put in words from the start;
/// any other request goes out as it is.
pub proof fn law_known_format_is_put_in_words(body: JsonView, snapshot: ProxyRuntimeSnapshot)
    ensures
        ({
            let ready = prepared_body(body, snapshot);
            &&& ready.native_body.has("response_format"@) && snapshot.capabilities@.contains(
                ready.capability_key,
            ) ==> ready.first_body() == chat_request::degraded(ready.native_body)
            &&& !(ready.native_body.has("response_format"@) && snapshot.capabilities@.contains(
                ready.capability_key,
            )) ==> ready.first_body() == ready.native_body
        }),
{
}

/// What follows an arrival: an answer is read, a refusal is passed on or, once, met
/// with the same request in words, and a failure is told.
pub proof fn law_steps_of_an_exchange(
    exchange: ExchangeView,
    status: u16,
    detail: String,
    failure: SendFailure,
)
    ensures
        exchange.step(Arrival::Accepted) is Read,
        exchange.after(Arrival::Accepted) == exchange,
        exchange.step(Arrival::Failed(failure)) == StepView::Answer(
            proxy::send_failure_reply(failure, exchange.request.timeout_secs),
        ),
        exchange.after(Arrival::Failed(failure)) == exchange,
        !exchange.retried && exchange.request.native_body.has("response_format"@)
            && !exchange.request.prompted && (status == 400 || status == 422) ==> {
            &&& exchange.step(Arrival::Refused(status, detail)) == StepView::Send(
                chat_request::degraded(exchange.request.native_body),
            )
            &&& exchange.after(Arrival::Refused(status, detail)).retried
            &&& exchange.after(Arrival::Refused(status, detail)).request == exchange.request
        },
        exchange.retried || !exchange.request.native_body.has("response_format"@)
            || exchange.request.prompted || (status != 400 && status != 422) ==> {
            &&& exchange.step(Arrival::Refused(status, detail)) == StepView::Answer(
                proxy::upstream_error_reply(status, detail@),
            )
            &&& exchange.after(Arrival::Refused(status, detail)) == exchange
        },
{
}

/// An answer is made under the identifier and the time given, for the model and
/// with the settings of the request.
pub proof fn law_answers_belong_to_their_request(
    exchange: ExchangeView,
    response_id: Seq<char>,
    created_at: i64,
)
    ensures
        ({
            let context = exchange.context(response_id, created_at);
            &&& context.response_id == response_id
            &&& context.created_at == created_at
            &&& context.model == exchange.request.model
            &&& context.metadata == exchange.request.metadata
            &&& context.structured_output == exchange.request.native_body.has("response_format"@)
            &&& context.structured_schema == exchange.request.structured_schema
            &&& context.capability_key is Some <==> exchange.retried
        }),
{
}

/// An answer that can be told is told with the status of success; one that cannot
/// is answered with why.
pub proof fn law_answers_are_told(
    context: ContextView,
    chat: JsonView,
    suffix: Seq<char>,
    entries: Seq<EntryView>,
    keys: Set<Seq<char>>,
)
    ensures
        ({
            let answer = context.answered(chat, suffix, entries, keys);
            &&& answer.reply.status == 200 <==> response::answer_problem(
                chat,
                context.structured_output,
                context.structured_schema,
            ) is None
            &&& response::answer_problem(
                chat,
                context.structured_output,
                context.structured_schema,
            ) matches Some(problem) ==> answer.reply.status == 502 && answer.reply.body.get_in(
                "error"@,
                "message"@,
            ) == Some(JsonView::Text(problem)) && answer.keys == keys
        }),
{
    if let Some(problem) = response::answer_problem(
        chat,
        context.structured_output,
        context.structured_schema,
    ) {
        law_errors_are_answered(502, problem);
    }
}

/// A body that did not come, or that is not JSON, is answered with an error, and
/// nothing is remembered of it.
pub proof fn law_unread_bodies_are_answered(
    context: ContextView,
    read: BodyRead,
    suffix: Seq<char>,
    entries: Seq<EntryView>,
    keys: Set<Seq<char>>,
)
    ensures
        ({
            let answer = context.read_whole(read, suffix, entries, keys);
            &&& read is TimedOut ==> answer.reply.status == 504
            &&& read is Broken ==> answer.reply.status == 502
            &&& read matches BodyRead::Bytes(bytes) ==> (json::parsed_bytes(bytes@) is None
                ==> answer.reply.status == 502 && answer.entries == entries && answer.keys == keys)
            &&& read matches BodyRead::Bytes(bytes) ==> (json::parsed_bytes(
                bytes@,
            ) matches Some(chat) ==> answer == context.answered(chat, suffix, entries, keys))
            &&& !(read is Bytes) ==> answer.entries == entries && answer.keys == keys
                && answer.reply.body.has("error"@)
        }),
{
}

/// An answer that was to be streamed and was not is taken for what it is: a
/// completion, an error, or events.
pub proof fn law_unstreamed_answers(body: Seq<char>, document: JsonView)
    ensures
        json::parsed_text(body) == Some(document) && document.has("choices"@) && !document.has(
            "error"@,
        ) ==> exchange::fallback_kind(body) == FallbackView::Completion(document),
        json::parsed_text(body) == Some(document) && document.has("error"@) ==> (
        exchange::fallback_kind(body) matches FallbackView::Reply(reply) && reply.status == 502
            && reply.body == document),
        json::parsed_text(body) == Some(document) && !document.has("choices"@) && !document.has(
            "error"@,
        ) ==> (exchange::fallback_kind(body) matches FallbackView::Reply(reply) && reply.status
            == 502),
        json::parsed_text(body) is None && exchange::holds_event_data(body)
            ==> exchange::fallback_kind(body) is Sse,
        json::parsed_text(body) is None && !exchange::holds_event_data(body) ==> (
        exchange::fallback_kind(body) matches FallbackView::Reply(reply) && reply.status == 502),
{
}

/// The list of models is passed on as it came, with its status.
pub proof fn law_models_are_passed_on(read: ModelsRead, body: JsonView)
    ensures
        read matches ModelsRead::Answered(status, bytes) ==> (json::parsed_bytes(bytes@) == Some(
            body,
        ) ==> exchange::models_reply(read) == (ReplyView { status, body })),
        read matches ModelsRead::Answered(_, bytes) ==> (json::parsed_bytes(bytes@) is None
            ==> exchange::models_reply(read).status == 502),
        read is Unreachable ==> exchange::models_reply(read).status == 502,
        read is TimedOut ==> exchange::models_reply(read).status == 504,
        read matches ModelsRead::Broken(reason) ==> exchange::models_reply(read).status == 502
            && exchange::models_reply(read).body.get_in("error"@, "message"@) == Some(
            JsonView::Text(reason@),
        ),
{
    if let ModelsRead::Broken(reason) = read {
        law_errors_are_answered(502, reason@);
    }
}

/// The models are asked for at the service in use, by a client that is known.
pub proof fn law_models_are_asked_for(expected: Seq<u8>, snapshot: ProxyRuntimeSnapshot)
    requires
        snapshot.config@.upstream_base.len() > 0,
    ensures
        exchange::models_request(Some(expected), expected, snapshot) == Ok::<Seq<char>, ReplyView>(
            endpoint(snapshot.config@.upstream_base, "models"@),
        ),
{
}

} // verus!
