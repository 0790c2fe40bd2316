//! The text inside Chat Completions messages: plain text, content parts,
//! reasoning and structured output.

use crate::json;
use crate::json::{Json, JsonView};
use crate::text;
use vstd::prelude::*;

verus! {

/// The text of a message content, which is text, a list of content parts, or
/// an object. An object without text of its own stands for its JSON.
pub open spec fn content_text(value: JsonView) -> Option<Seq<char>>
    decreases value,
{
    match value {
        JsonView::Text(text) => Some(text),
        JsonView::Array(parts) => {
            let text = parts_text(parts);
            if text.len() == 0 {
                None
            } else {
                Some(text)
            }
        },
        JsonView::Object(members) => {
            let inner = if members.contains_key("text"@) {
                content_text(members["text"@])
            } else if members.contains_key("content"@) {
                content_text(members["content"@])
            } else {
                None
            };
            match inner {
                Some(text) => Some(text),
                None => json::compact_text(value),
            }
        },
        _ => None,
    }
}

/// The texts of content parts, one after the other.
pub open spec fn parts_text(parts: Seq<JsonView>) -> Seq<char>
    decreases parts,
{
    if parts.len() == 0 {
        Seq::empty()
    } else {
        parts_text(parts.drop_last()) + part_text(parts.last())
    }
}

/// The text of one content part; parts of an unknown kind have none.
pub open spec fn part_text(part: JsonView) -> Seq<char>
    decreases part,
{
    match part {
        JsonView::Text(text) => text,
        JsonView::Object(members) => {
            let inner = if members.contains_key("text"@) {
                content_text(members["text"@])
            } else if members.contains_key("content"@) {
                content_text(members["content"@])
            } else {
                None
            };
            match inner {
                Some(text) => text,
                None => Seq::empty(),
            }
        },
        _ => Seq::empty(),
    }
}

/// The text of a message content.
pub fn chat_content_to_text(value: &Json) -> (text: Option<String>)
    ensures
        text::string_of(text) == content_text(value@),
    decreases value@,
{
    match value {
        Json::Text(text) => Some(text.clone()),
        Json::Array(parts) => {
            let mut text = String::new();
            proof {
                json::lemma_items_view(parts@);
            }
            let ghost views = json::items_view(parts@);
            assert(views.take(0) =~= Seq::<JsonView>::empty());
            for index in 0..parts.len()
                invariant
                    value@ == JsonView::Array(views),
                    views.len() == parts.len(),
                    forall|i: int| 0 <= i < parts.len() ==> #[trigger] views[i] == parts[i]@,
                    text@ == parts_text(views.take(index as int)),
                decreases parts.len() - index,
            {
                let part = &parts[index];
                proof {
                    assert(views[index as int] == part@);
                    assert(decreases_to!(value@ => value@->Array_0));
                    assert(decreases_to!(value@->Array_0 => value@->Array_0[index as int]));
                    assert(views.take(index + 1).drop_last() =~= views.take(index as int));
                }
                let ghost before = text@;
                match part {
                    Json::Text(more) => text.append(more.as_str()),
                    Json::Object(_) => {
                        let inner = match part.get("text") {
                            Some(inner) => Some(inner),
                            None => part.get("content"),
                        };
                        if let Some(inner) = inner {
                            assert(decreases_to!(part@ => inner@));
                            if let Some(more) = chat_content_to_text(inner) {
                                text.append(more.as_str());
                            }
                        }
                    },
                    _ => {},
                }
                assert(text@ =~= before + part_text(part@));
                assert(views.take(index + 1).last() == part@);
            }
            assert(views.take(parts.len() as int) =~= views);
            if text.as_str().is_empty() {
                None
            } else {
                Some(text)
            }
        },
        Json::Object(_) => {
            let inner = match value.get("text") {
                Some(inner) => Some(inner),
                None => value.get("content"),
            };
            if let Some(inner) = inner {
                assert(decreases_to!(value@ => inner@));
                if let Some(text) = chat_content_to_text(inner) {
                    return Some(text);
                }
            }
            value.render()
        },
        _ => None,
    }
}

/// The text of the member `key` of a message.
pub open spec fn text_in(message: JsonView, key: Seq<char>) -> Option<Seq<char>> {
    match message.get(key) {
        Some(value) => content_text(value),
        None => None,
    }
}

/// The text of the member `key` of a message.
pub fn text_within(message: &Json, key: &str) -> (text: Option<String>)
    ensures
        text::string_of(text) == text_in(message@, key@),
{
    match message.get(key) {
        Some(value) => chat_content_to_text(value),
        None => None,
    }
}

/// A text that holds more than white space.
pub open spec fn unless_blank(text: Option<Seq<char>>) -> Option<Seq<char>> {
    match text {
        Some(text) => if text::blank(text) {
            None
        } else {
            Some(text)
        },
        None => None,
    }
}

/// A text that holds more than white space.
pub fn keep_unless_blank(text: Option<String>) -> (kept: Option<String>)
    ensures
        text::string_of(kept) == unless_blank(text::string_of(text)),
{
    match text {
        Some(text) => if text::is_blank(text.as_str()) {
            None
        } else {
            Some(text)
        },
        None => None,
    }
}

/// The reasoning that a message carries, under whichever name the provider
/// gives it. The first name that has a text counts, and a blank text is none.
pub open spec fn reasoning_text(message: JsonView) -> Option<Seq<char>> {
    unless_blank(
        match text_in(message, "reasoning_content"@) {
            Some(text) => Some(text),
            None => match text_in(message, "reasoning"@) {
                Some(text) => Some(text),
                None => match text_in(message, "analysis"@) {
                    Some(text) => Some(text),
                    None => text_in(message, "reasoning_details"@),
                },
            },
        },
    )
}

/// The reasoning that a message carries.
pub fn message_reasoning_text(message: &Json) -> (text: Option<String>)
    ensures
        text::string_of(text) == reasoning_text(message@),
{
    let mut found = text_within(message, "reasoning_content");
    if found.is_none() {
        found = text_within(message, "reasoning");
    }
    if found.is_none() {
        found = text_within(message, "analysis");
    }
    if found.is_none() {
        found = text_within(message, "reasoning_details");
    }
    keep_unless_blank(found)
}

/// Whether a schema, where there is one, accepts a document.
pub open spec fn conforms(document: JsonView, schema: Option<JsonView>) -> bool {
    match schema {
        Some(schema) => json::schema_verdict(schema, document) == Some(true),
        None => true,
    }
}

/// Structured output in its compact form: the text must be one JSON object
/// that the schema accepts.
pub open spec fn structured_text(text: Seq<char>, schema: Option<JsonView>) -> Option<Seq<char>> {
    match json::parsed_text(text) {
        Some(document) => if document is Object && conforms(document, schema) {
            json::compact_text(document)
        } else {
            None
        },
        None => None,
    }
}

/// Checks structured output and gives its compact form.
pub fn validate_structured_output(text: &str, schema: Option<&Json>) -> (checked: Option<String>)
    ensures
        text::string_of(checked) == structured_text(text@, json::json_of(schema)),
{
    match Json::parse(text) {
        Some(document) => {
            if !document.is_object() {
                return None;
            }
            if let Some(schema) = schema {
                match schema.schema_accepts(&document) {
                    Some(true) => {},
                    _ => return None,
                }
            }
            document.render()
        },
        None => None,
    }
}

/// The text of a member that structured output may stand in. An object is
/// the output itself, whatever members it has.
pub open spec fn structured_member(message: JsonView, key: Seq<char>) -> Option<Seq<char>> {
    match message.get(key) {
        Some(value) => match value {
            JsonView::Object(_) => json::compact_text(value),
            _ => content_text(value),
        },
        None => None,
    }
}

fn structured_within(message: &Json, key: &str) -> (text: Option<String>)
    ensures
        text::string_of(text) == structured_member(message@, key@),
{
    match message.get(key) {
        Some(value) => if value.is_object() {
            value.render()
        } else {
            chat_content_to_text(value)
        },
        None => None,
    }
}

/// The text that a message answers with.
pub open spec fn output_text(message: JsonView, structured: bool) -> Seq<char> {
    let found = if structured {
        unless_blank(
            match structured_member(message, "content"@) {
                Some(text) => Some(text),
                None => structured_member(message, "parsed"@),
            },
        )
    } else {
        match unless_blank(text_in(message, "content"@)) {
            Some(text) => Some(text),
            None => unless_blank(text_in(message, "parsed"@)),
        }
    };
    match found {
        Some(text) => text,
        None => Seq::empty(),
    }
}

/// The text that a message answers with; the empty text where it has none.
pub fn message_output_text(message: &Json, structured_output: bool) -> (text: String)
    ensures
        text@ == output_text(message@, structured_output),
{
    let found = if structured_output {
        let mut found = structured_within(message, "content");
        if found.is_none() {
            found = structured_within(message, "parsed");
        }
        keep_unless_blank(found)
    } else {
        let mut found = keep_unless_blank(text_within(message, "content"));
        if found.is_none() {
            found = keep_unless_blank(text_within(message, "parsed"));
        }
        found
    };
    match found {
        Some(text) => text,
        None => String::new(),
    }
}

/// Text that passed the check of structured output is the compact form of a
/// JSON object that the schema accepts.
pub proof fn law_structured_output_is_validated(text: Seq<char>, schema: Option<JsonView>)
    ensures
        structured_text(text, schema) matches Some(checked) ==> exists|document: JsonView|
            json::parsed_text(text) == Some(document) && document is Object && #[trigger] conforms(
                document,
                schema,
            ) && json::compact_text(document) == Some(checked),
{
}

} // verus!
