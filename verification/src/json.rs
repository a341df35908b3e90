//! JSON: the model of a decoded JSON document and the search for the
//! generated text in a response, and the JSON lists stored in the
//! grammar-rule columns.

use vstd::prelude::*;

use crate::records::{texts_view, GrammarRule, GrammarRuleView};
use crate::text::str_equal;

verus! {

/// A decoded JSON document. Numbers keep their decimal text.
#[derive(Debug)]
pub enum JsonValue {
    Null,
    Bool(bool),
    Number(String),
    Text(String),
    Array(Vec<JsonValue>),
    Object(Vec<(String, JsonValue)>),
}

/// The value of the first entry named `key` from position `i` of an object's
/// entries on.
pub open spec fn entry_value(entries: Seq<(String, JsonValue)>, key: Seq<char>, i: int) -> Option<
    JsonValue,
>
    decreases entries.len() - i,
{
    if i < 0 || i >= entries.len() {
        None
    } else if entries[i].0@ == key {
        Some(entries[i].1)
    } else {
        entry_value(entries, key, i + 1)
    }
}

/// The member `key` of an object; `None` for a missing member or a value that
/// is not an object.
pub open spec fn field(v: JsonValue, key: Seq<char>) -> Option<JsonValue> {
    match v {
        JsonValue::Object(entries) => entry_value(entries@, key, 0),
        _ => None,
    }
}

/// The member `key` of a JSON object (`serde_json::Value::get`).
pub fn get_field<'a>(v: &'a JsonValue, key: &str) -> (r: Option<&'a JsonValue>)
    ensures
        match r {
            Some(x) => field(*v, key@) == Some(*x),
            None => field(*v, key@) is None,
        },
{
    match v {
        JsonValue::Object(entries) => {
            let mut i: usize = 0;
            while i < entries.len()
                invariant
                    i <= entries@.len(),
                    field(*v, key@) == entry_value(entries@, key@, i as int),
                decreases entries@.len() - i,
            {
                if str_equal(entries[i].0.as_str(), key) {
                    return Some(&entries[i].1);
                }
                i = i + 1;
            }
            None
        },
        _ => None,
    }
}

/// The text of a content item of kind `output_text`, when it has one.
pub open spec fn content_item_text(item: JsonValue) -> Option<Seq<char>> {
    match field(item, "type"@) {
        Some(JsonValue::Text(kind)) => if kind@ == "output_text"@ {
            match field(item, "text"@) {
                Some(JsonValue::Text(t)) => Some(t@),
                _ => None,
            }
        } else {
            None
        },
        _ => None,
    }
}

/// The content items of an output item; none when it has no content array.
pub open spec fn item_contents(item: JsonValue) -> Seq<JsonValue> {
    match field(item, "content"@) {
        Some(JsonValue::Array(a)) => a@,
        _ => Seq::empty(),
    }
}

/// The first text among the content items from position `j` on.
pub open spec fn first_text_in(contents: Seq<JsonValue>, j: int) -> Option<Seq<char>>
    decreases contents.len() - j,
{
    if j < 0 || j >= contents.len() {
        None
    } else {
        match content_item_text(contents[j]) {
            Some(t) => Some(t),
            None => first_text_in(contents, j + 1),
        }
    }
}

/// The first text among the content items of the output items, from the
/// `i`-th output item on.
pub open spec fn first_text_among(items: Seq<JsonValue>, i: int) -> Option<Seq<char>>
    decreases items.len() - i,
{
    if i < 0 || i >= items.len() {
        None
    } else {
        match first_text_in(item_contents(items[i]), 0) {
            Some(t) => Some(t),
            None => first_text_among(items, i + 1),
        }
    }
}

/// The generated text of a response: the text of the first `output_text`
/// content item, in order, among the output items.
pub open spec fn output_text(response: JsonValue) -> Option<Seq<char>> {
    match field(response, "output"@) {
        Some(JsonValue::Array(items)) => first_text_among(items@, 0),
        _ => None,
    }
}

fn text_of_content_item(item: &JsonValue) -> (r: Option<String>)
    ensures
        match r {
            Some(t) => content_item_text(*item) == Some(t@),
            None => content_item_text(*item) is None,
        },
{
    match get_field(item, "type") {
        Some(JsonValue::Text(kind)) => {
            if str_equal(kind.as_str(), "output_text") {
                match get_field(item, "text") {
                    Some(JsonValue::Text(t)) => Some(t.clone()),
                    _ => None,
                }
            } else {
                None
            }
        },
        _ => None,
    }
}

fn text_of_output_item(item: &JsonValue) -> (r: Option<String>)
    ensures
        match r {
            Some(t) => first_text_in(item_contents(*item), 0) == Some(t@),
            None => first_text_in(item_contents(*item), 0) is None,
        },
{
    match get_field(item, "content") {
        Some(JsonValue::Array(contents)) => {
            let ghost cs = contents@;
            let mut j: usize = 0;
            while j < contents.len()
                invariant
                    cs == contents@,
                    cs == item_contents(*item),
                    j <= cs.len(),
                    first_text_in(cs, 0) == first_text_in(cs, j as int),
                decreases cs.len() - j,
            {
                match text_of_content_item(&contents[j]) {
                    Some(t) => {
                        return Some(t);
                    },
                    None => {},
                }
                j = j + 1;
            }
            None
        },
        _ => None,
    }
}

/// The generated text of a response: the first `output_text` content item
/// among the output items.
pub fn extract_output_text(response: &JsonValue) -> (r: Option<String>)
    ensures
        match r {
            Some(t) => output_text(*response) == Some(t@),
            None => output_text(*response) is None,
        },
{
    match get_field(response, "output") {
        Some(JsonValue::Array(items)) => {
            let ghost its = items@;
            let mut i: usize = 0;
            while i < items.len()
                invariant
                    its == items@,
                    field(*response, "output"@) == Some(JsonValue::Array(*items)),
                    i <= its.len(),
                    first_text_among(its, 0) == first_text_among(its, i as int),
                decreases its.len() - i,
            {
                match text_of_output_item(&items[i]) {
                    Some(t) => {
                        return Some(t);
                    },
                    None => {},
                }
                i = i + 1;
            }
            None
        },
        _ => None,
    }
}

/// A JSON value as `serde_json` decodes it.
#[verifier::external_type_specification]
#[verifier::external_body]
pub struct ExJsonValue(serde_json::Value);

/// The document that `serde_json::from_str::<serde_json::Value>` decodes from
/// `text`, in the library's model, or `None` when `text` is not JSON.
pub uninterp spec fn json_document(text: Seq<char>) -> Option<JsonValue>;

/// Moves a `serde_json::Value` into the library's model, variant for variant;
/// numbers keep the decimal text that `serde_json` writes for them.
#[verifier::external_body]
fn json_value_into_model(v: serde_json::Value) -> JsonValue {
    match v {
        serde_json::Value::Null => JsonValue::Null,
        serde_json::Value::Bool(b) => JsonValue::Bool(b),
        serde_json::Value::Number(n) => JsonValue::Number(n.to_string()),
        serde_json::Value::String(s) => JsonValue::Text(s),
        serde_json::Value::Array(a) => JsonValue::Array(a.into_iter().map(json_value_into_model).collect()),
        serde_json::Value::Object(m) => JsonValue::Object(
            m.into_iter().map(|(k, x)| (k, json_value_into_model(x))).collect(),
        ),
    }
}

/// `serde_json::from_str::<serde_json::Value>`: decodes a JSON text. The result
/// is the named document of `text`, success included.
#[verifier::external_body]
fn decode_json_document(text: &str) -> (r: Result<JsonValue, serde_json::Error>)
    ensures
        json_document(text@) == match r {
            Ok(d) => Some(d),
            Err(_) => None,
        },
{
    serde_json::from_str::<serde_json::Value>(text).map(json_value_into_model)
}

/// Why a response body gave no generated text.
#[derive(Debug)]
pub enum ResponseError {
    /// The body is not JSON.
    NotJson(serde_json::Error),
    /// The body is JSON without an `output_text` item.
    MissingOutputText,
}

/// The generated text of a response body: the body is decoded as JSON and the
/// first `output_text` content item is taken.
pub fn response_output_text(body: &str) -> (r: Result<String, ResponseError>)
    ensures
        match r {
            Ok(t) => json_document(body@) matches Some(d) && output_text(d) == Some(t@),
            Err(ResponseError::NotJson(_)) => json_document(body@) is None,
            Err(ResponseError::MissingOutputText) => json_document(body@) matches Some(d)
                && output_text(d) is None,
        },
{
    match decode_json_document(body) {
        Ok(document) => match extract_output_text(&document) {
            Some(t) => Ok(t),
            None => Err(ResponseError::MissingOutputText),
        },
        Err(e) => Err(ResponseError::NotJson(e)),
    }
}

/// The list of strings that a JSON text holds, as `serde_json::from_str`
/// decodes it, or `None` when the text is not a JSON array of strings.
pub uninterp spec fn json_string_list(text: Seq<char>) -> Option<Seq<Seq<char>>>;

/// The JSON text that `serde_json::to_string` writes for a list of strings.
pub uninterp spec fn json_list_text(items: Seq<Seq<char>>) -> Seq<char>;

/// The error of `serde_json`.
#[verifier::external_type_specification]
#[verifier::external_body]
pub struct ExJsonError(serde_json::Error);

/// `serde_json::from_str::<Vec<String>>`: decodes a JSON array of strings. The
/// result is the named decoding of `text`, success included.
#[verifier::external_body]
fn decode_string_list(text: &str) -> (r: Result<Vec<String>, serde_json::Error>)
    ensures
        json_string_list(text@) == match r {
            Ok(v) => Some(texts_view(v@)),
            Err(_) => None,
        },
{
    serde_json::from_str::<Vec<String>>(text)
}

/// `serde_json::to_string` on a list of strings. It succeeds, and the text is
/// the named encoding of the list: the only errors of that serializer on
/// strings and sequences are errors of the writer, and it writes to a `Vec`.
/// The text decodes back to the same list: the serializer writes each string
/// between quotes with `"`, `\` and the control characters escaped, and the
/// decoder of `serde_json::from_str::<Vec<String>>` undoes those escapes.
#[verifier::external_body]
fn encode_string_list(items: &Vec<String>) -> (r: Result<String, serde_json::Error>)
    ensures
        r is Ok,
        r matches Ok(t) ==> t@ == json_list_text(texts_view(items@)),
        r matches Ok(t) ==> json_string_list(t@) == Some(texts_view(items@)),
{
    serde_json::to_string(items)
}

/// The decoded list, or the empty list when decoding failed.
pub fn string_list_or_empty(decoded: Option<Vec<String>>) -> (r: Vec<String>)
    ensures
        texts_view(r@) == match decoded {
            Some(v) => texts_view(v@),
            None => Seq::empty(),
        },
{
    match decoded {
        Some(v) => v,
        None => {
            let r: Vec<String> = Vec::new();
            assert(texts_view(r@) =~= Seq::<Seq<char>>::empty());
            r
        },
    }
}

/// The list of strings in a stored JSON column, or the empty list when the
/// column does not hold a JSON array of strings.
pub fn parse_string_list(text: &str) -> (r: Vec<String>)
    ensures
        texts_view(r@) == match json_string_list(text@) {
            Some(l) => l,
            None => Seq::empty(),
        },
{
    let decoded = match decode_string_list(text) {
        Ok(v) => Some(v),
        Err(_) => None,
    };
    string_list_or_empty(decoded)
}

/// The list of strings stored as JSON text, as the grammar-rule columns keep it.
pub open spec fn stored_list(text: Seq<char>) -> Seq<Seq<char>> {
    match json_string_list(text) {
        Some(l) => l,
        None => Seq::empty(),
    }
}

/// The contents of the grammar rule that stored columns hold; a list column
/// that does not hold a JSON array of strings reads as empty.
pub open spec fn rule_from_columns(
    id: Seq<char>,
    language: Seq<char>,
    cefr_level: Seq<char>,
    category: Seq<char>,
    title: Seq<char>,
    rule_text: Seq<char>,
    examples_json: Seq<char>,
    common_mistakes_json: Seq<char>,
    tags_json: Seq<char>,
) -> GrammarRuleView {
    GrammarRuleView {
        id,
        language,
        cefr_level,
        category,
        title,
        rule_text,
        examples: stored_list(examples_json),
        common_mistakes: stored_list(common_mistakes_json),
        tags: stored_list(tags_json),
    }
}

/// A grammar rule from its stored columns; the three list columns hold JSON
/// arrays of strings, and one that does not decode reads as empty.
pub fn grammar_rule_from_columns(
    id: String,
    language: String,
    cefr_level: String,
    category: String,
    title: String,
    rule_text: String,
    examples_json: &str,
    common_mistakes_json: &str,
    tags_json: &str,
) -> (r: GrammarRule)
    ensures
        r.id@ == id@,
        r.language@ == language@,
        r.cefr_level@ == cefr_level@,
        r.category@ == category@,
        r.title@ == title@,
        r.rule_text@ == rule_text@,
        texts_view(r.examples@) == stored_list(examples_json@),
        texts_view(r.common_mistakes@) == stored_list(common_mistakes_json@),
        texts_view(r.tags@) == stored_list(tags_json@),
        r@ == rule_from_columns(
            id@,
            language@,
            cefr_level@,
            category@,
            title@,
            rule_text@,
            examples_json@,
            common_mistakes_json@,
            tags_json@,
        ),
{
    GrammarRule {
        id,
        language,
        cefr_level,
        category,
        title,
        rule_text,
        examples: parse_string_list(examples_json),
        common_mistakes: parse_string_list(common_mistakes_json),
        tags: parse_string_list(tags_json),
    }
}

/// Whether three stored list columns read back as the examples, common
/// mistakes and tags of a rule.
pub open spec fn columns_hold_lists(
    rule: GrammarRuleView,
    examples_json: Seq<char>,
    common_mistakes_json: Seq<char>,
    tags_json: Seq<char>,
) -> bool {
    &&& stored_list(examples_json) == rule.examples
    &&& stored_list(common_mistakes_json) == rule.common_mistakes
    &&& stored_list(tags_json) == rule.tags
}

/// A list of strings could not be written as JSON.
#[derive(Debug, Clone, PartialEq, Eq)]
pub struct ListEncodingError;

/// The JSON texts of a rule's three list columns: examples, common mistakes,
/// tags. Writing lists of strings as JSON always succeeds, and each column
/// reads back, as `grammar_rule_from_columns` reads it, as the list written.
pub fn rule_list_columns(rule: &GrammarRule) -> (r: Result<(String, String, String), ListEncodingError>)
    ensures
        r is Ok,
        r matches Ok((e, m, t)) ==> {
            &&& e@ == json_list_text(texts_view(rule.examples@))
            &&& m@ == json_list_text(texts_view(rule.common_mistakes@))
            &&& t@ == json_list_text(texts_view(rule.tags@))
        },
        r matches Ok((e, m, t)) ==> columns_hold_lists(rule@, e@, m@, t@),
{
    let examples = match encode_string_list(&rule.examples) {
        Ok(t) => t,
        Err(_) => {
            return Err(ListEncodingError);
        },
    };
    let mistakes = match encode_string_list(&rule.common_mistakes) {
        Ok(t) => t,
        Err(_) => {
            return Err(ListEncodingError);
        },
    };
    let tags = match encode_string_list(&rule.tags) {
        Ok(t) => t,
        Err(_) => {
            return Err(ListEncodingError);
        },
    };
    Ok((examples, mistakes, tags))
}

} // verus!
