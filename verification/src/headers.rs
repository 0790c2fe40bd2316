//! The request headers that a provider asks for.

use crate::text;
use crate::text::same_text;
use vstd::prelude::*;

verus! {

/// The most headers that are certain to find room.
pub const HEADER_ROOM: usize = 3276;

/// Whether a character may stand in a header name.
pub open spec fn is_token_char(c: char) -> bool {
    ||| 'a' <= c <= 'z'
    ||| 'A' <= c <= 'Z'
    ||| '0' <= c <= '9'
    ||| c == '!'
    ||| c == '#'
    ||| c == '$'
    ||| c == '%'
    ||| c == '&'
    ||| c == '\''
    ||| c == '*'
    ||| c == '+'
    ||| c == '-'
    ||| c == '.'
    ||| c == '^'
    ||| c == '_'
    ||| c == '`'
    ||| c == '|'
    ||| c == '~'
}

/// Whether a text is a header name.
pub open spec fn is_header_name(name: Seq<char>) -> bool {
    &&& 1 <= name.len() <= 65535
    &&& forall|i: int| 0 <= i < name.len() ==> is_token_char(#[trigger] name[i])
}

/// Whether a text can be the value of a header: it holds no control character
/// but tabs.
pub open spec fn is_header_value(value: Seq<char>) -> bool {
    let bytes = vstd::utf8::encode_utf8(value);
    forall|i: int|
        0 <= i < bytes.len() ==> {
            ||| #[trigger] bytes[i] == 9
            ||| bytes[i] >= 32 && bytes[i] != 127
        }
}

/// No header at all.
pub open spec fn no_headers() -> Map<Seq<char>, Seq<u8>> {
    Map::empty()
}

/// The headers once one more pair was taken in. A pair that is no header, or
/// that names the user agent, is skipped.
pub open spec fn with_pair(
    headers: Map<Seq<char>, Seq<u8>>,
    pair: (Seq<char>, Seq<char>),
) -> Map<Seq<char>, Seq<u8>> {
    if is_header_name(pair.0) && text::lowered(pair.0) != "user-agent"@ && is_header_value(
        pair.1,
    ) {
        headers.insert(text::lowered(pair.0), vstd::utf8::encode_utf8(pair.1))
    } else {
        headers
    }
}

/// The headers that pairs stand for, taken in in their order.
pub open spec fn upstream_headers(pairs: Seq<(Seq<char>, Seq<char>)>) -> Map<Seq<char>, Seq<u8>>
    decreases pairs.len(),
{
    if pairs.len() == 0 {
        Map::empty()
    } else {
        with_pair(upstream_headers(pairs.drop_last()), pairs.last())
    }
}

/// The texts of pairs of strings.
pub open spec fn pair_texts(pairs: Seq<(String, String)>) -> Seq<(Seq<char>, Seq<char>)> {
    pairs.map_values(|pair: (String, String)| (pair.0@, pair.1@))
}

proof fn lemma_upstream_headers_size(pairs: Seq<(Seq<char>, Seq<char>)>)
    ensures
        upstream_headers(pairs).dom().finite(),
        upstream_headers(pairs).dom().len() <= pairs.len(),
    decreases pairs.len(),
{
    if pairs.len() > 0 {
        lemma_upstream_headers_size(pairs.drop_last());
    }
}

/// Builds the headers that a provider asks for. Pairs that are no headers are
/// skipped, and so is the user agent, which is not the provider's to choose.
pub fn build_upstream_headers(pairs: &Vec<(String, String)>) -> (headers: reqwest::header::HeaderMap)
    ensures
        pairs.len() <= HEADER_ROOM ==> headers_view(headers) == upstream_headers(
            pair_texts(pairs@),
        ),
        !headers_view(headers).contains_key("user-agent"@),
{
    let mut headers = new_headers();
    let ghost views = pair_texts(pairs@);
    assert(views.take(0) =~= Seq::<(Seq<char>, Seq<char>)>::empty());
    for index in 0..pairs.len()
        invariant
            views == pair_texts(pairs@),
            pairs.len() <= HEADER_ROOM ==> headers_view(headers) == upstream_headers(
                views.take(index as int),
            ),
            !headers_view(headers).contains_key("user-agent"@),
    {
        proof {
            assert(views[index as int] == (pairs[index as int].0@, pairs[index as int].1@));
            assert(views.take(index + 1).drop_last() =~= views.take(index as int));
            assert(views.take(index + 1).last() == views[index as int]);
            lemma_upstream_headers_size(views.take(index as int));
        }
        if let Some(name) = parse_header_name(pairs[index].0.as_str()) {
            if !same_text(name_str(&name), "user-agent") {
                if let Some(value) = parse_header_value(pairs[index].1.as_str()) {
                    let _ = insert_header(&mut headers, name, value);
                }
            }
        }
    }
    assert(views.take(pairs.len() as int) =~= views);
    headers
}

/// The headers of a map, by their names.
pub uninterp spec fn headers_view(headers: reqwest::header::HeaderMap) -> Map<
    Seq<char>,
    Seq<u8>,
>;

/// The text of a header name.
pub uninterp spec fn name_text(name: reqwest::header::HeaderName) -> Seq<char>;

/// The bytes of a header value.
pub uninterp spec fn value_bytes(value: reqwest::header::HeaderValue) -> Seq<u8>;

#[verifier::external_type_specification]
#[verifier::external_body]
pub struct ExHeaderName(reqwest::header::HeaderName);

#[verifier::external_type_specification]
#[verifier::external_body]
pub struct ExHeaderValue(reqwest::header::HeaderValue);

#[verifier::external_type_specification]
#[verifier::external_body]
#[verifier::reject_recursive_types(T)]
pub struct ExHeaderMap<T>(reqwest::header::HeaderMap<T>);

/// `HeaderName::from_bytes` takes the characters of an HTTP token, up to 65535
/// of them, and puts the letters in lower case.
#[verifier::external_body]
fn parse_header_name(name: &str) -> (parsed: Option<reqwest::header::HeaderName>)
    ensures
        match parsed {
            Some(parsed) => is_header_name(name@) && name_text(parsed) == text::lowered(name@),
            None => !is_header_name(name@),
        },
{
    reqwest::header::HeaderName::from_bytes(name.as_bytes()).ok()
}

/// `HeaderName::as_str` gives the text of the name.
#[verifier::external_body]
fn name_str(name: &reqwest::header::HeaderName) -> (text: &str)
    ensures
        text@ == name_text(*name),
{
    name.as_str()
}

/// `HeaderValue::from_str` takes any text without control characters other
/// than tabs, and keeps its bytes.
#[verifier::external_body]
fn parse_header_value(value: &str) -> (parsed: Option<reqwest::header::HeaderValue>)
    ensures
        match parsed {
            Some(parsed) => is_header_value(value@) && value_bytes(parsed)
                == vstd::utf8::encode_utf8(value@),
            None => !is_header_value(value@),
        },
{
    reqwest::header::HeaderValue::from_str(value).ok()
}

/// `HeaderMap::new` holds no header.
#[verifier::external_body]
fn new_headers() -> (headers: reqwest::header::HeaderMap)
    ensures
        headers_view(headers) == no_headers(),
{
    reqwest::header::HeaderMap::new()
}

/// `HeaderMap::try_insert` sets the value of a name, in the place of the one
/// that it had. It fails, and changes no header, only in a map that already
/// holds more than three thousand headers.
#[verifier::external_body]
fn insert_header(
    headers: &mut reqwest::header::HeaderMap,
    name: reqwest::header::HeaderName,
    value: reqwest::header::HeaderValue,
) -> (inserted: bool)
    ensures
        inserted ==> headers_view(*final(headers)) == headers_view(*old(headers)).insert(
            name_text(name),
            value_bytes(value),
        ),
        !inserted ==> headers_view(*final(headers)) == headers_view(*old(headers)),
        headers_view(*old(headers)).dom().len() < HEADER_ROOM ==> inserted,
{
    headers.try_insert(name, value).is_ok()
}

/// The last header of a name is sent under that name in small letters, with its
/// value; one that cannot be sent, or that names the user agent, is left out.
pub proof fn law_headers_are_sent(pairs: Seq<(Seq<char>, Seq<char>)>, i: int)
    requires
        0 <= i < pairs.len(),
        is_header_name(pairs[i].0),
        text::lowered(pairs[i].0) != "user-agent"@,
        is_header_value(pairs[i].1),
        forall|k: int|
            i < k < pairs.len() ==> text::lowered((#[trigger] pairs[k]).0) != text::lowered(
                pairs[i].0,
            ),
    ensures
        upstream_headers(pairs).contains_key(text::lowered(pairs[i].0)),
        upstream_headers(pairs)[text::lowered(pairs[i].0)] == vstd::utf8::encode_utf8(pairs[i].1),
    decreases pairs.len(),
{
    let rest = pairs.drop_last();
    if i < rest.len() {
        assert(rest[i] == pairs[i]);
        assert forall|k: int| i < k < rest.len() implies text::lowered((#[trigger] rest[k]).0)
            != text::lowered(rest[i].0) by {
            assert(rest[k] == pairs[k]);
        }
        law_headers_are_sent(rest, i);
        assert(text::lowered(pairs[pairs.len() - 1].0) != text::lowered(pairs[i].0));
    }
}

/// Whether one of the pairs is sent as a header of a name.
pub open spec fn is_sent_by(pairs: Seq<(Seq<char>, Seq<char>)>, name: Seq<char>) -> bool {
    exists|i: int|
        0 <= i < pairs.len() && text::lowered((#[trigger] pairs[i]).0) == name && is_header_name(
            pairs[i].0,
        ) && is_header_value(pairs[i].1)
}

/// No header is sent that was not given, and never one that names the user agent.
pub proof fn law_only_given_headers_are_sent(
    pairs: Seq<(Seq<char>, Seq<char>)>,
    name: Seq<char>,
)
    requires
        upstream_headers(pairs).contains_key(name),
    ensures
        is_sent_by(pairs, name),
        name != "user-agent"@,
    decreases pairs.len(),
{
    if pairs.len() > 0 {
        let rest = pairs.drop_last();
        let last = pairs[pairs.len() - 1];
        if upstream_headers(rest).contains_key(name) {
            law_only_given_headers_are_sent(rest, name);
            let i = choose|i: int|
                0 <= i < rest.len() && text::lowered((#[trigger] rest[i]).0) == name
                    && is_header_name(rest[i].0) && is_header_value(rest[i].1);
            assert(pairs[i] == rest[i]);
        } else {
            assert(text::lowered(last.0) == name);
        }
    }
}

} // verus!
