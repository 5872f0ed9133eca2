//! JSON documents of providers and JSON lists of warnings, read and written by `serde_json`.
use crate::models::source_contract::text_models;
use vstd::prelude::*;

verus! {

/// A JSON value as `serde_json` holds it.
#[verifier::external_type_specification]
#[verifier::external_body]
pub struct ExJsonValue(serde_json::Value);

/// What stands at a place of a JSON document.
#[derive(Debug, PartialEq)]
pub enum JsonNode {
    Null,
    Bool(bool),
    /// A number, as `serde_json` writes it.
    Number(String),
    Text(String),
    /// A list with its length.
    Array(usize),
    Object,
}

/// What a node holds.
pub enum NodeModel {
    Null,
    Bool(bool),
    Number(Seq<char>),
    Text(Seq<char>),
    Array(usize),
    Object,
}

impl View for JsonNode {
    type V = NodeModel;

    open spec fn view(&self) -> NodeModel {
        match self {
            JsonNode::Null => NodeModel::Null,
            JsonNode::Bool(value) => NodeModel::Bool(*value),
            JsonNode::Number(text) => NodeModel::Number(text@),
            JsonNode::Text(text) => NodeModel::Text(text@),
            JsonNode::Array(length) => NodeModel::Array(*length),
            JsonNode::Object => NodeModel::Object,
        }
    }
}

/// The nodes of a JSON value, each under the pointers that lead to it.
pub uninterp spec fn json_contents(value: serde_json::Value) -> Map<Seq<char>, NodeModel>;

/// The nodes of the document that bytes hold, or what is wrong with the bytes.
pub uninterp spec fn json_document(bytes: Seq<u8>) -> Result<
    Map<Seq<char>, NodeModel>,
    Seq<char>,
>;

/// Whether a reading is a document.
pub open spec fn is_document(
    reading: Result<Map<Seq<char>, NodeModel>, Seq<char>>,
    document: Map<Seq<char>, NodeModel>,
) -> bool {
    reading matches Ok(nodes) && nodes == document
}

/// Whether a reading is a fault.
pub open spec fn is_fault(
    reading: Result<Map<Seq<char>, NodeModel>, Seq<char>>,
    message: Seq<char>,
) -> bool {
    reading matches Err(words) && words == message
}

/// Reads a document with `serde_json::from_slice`. Whether the bytes hold one, and what it holds,
/// depends on the bytes alone, and so does the message where they hold none.
#[verifier::external_body]
pub(crate) fn parse_json(bytes: &[u8]) -> (value: Result<serde_json::Value, String>)
    ensures
        match value {
            Ok(value) => is_document(json_document(bytes@), json_contents(value)),
            Err(message) => is_fault(json_document(bytes@), message@),
        },
{
    serde_json::from_slice(bytes).map_err(|error: serde_json::Error| error.to_string())
}

/// Looks up a node with `serde_json::Value::pointer`: the one that the pointer leads to, where it
/// leads to one. A number is handed out as `serde_json::Number` is written, a list by its length.
#[verifier::external_body]
pub(crate) fn json_node(value: &serde_json::Value, pointer: &str) -> (node: Option<JsonNode>)
    ensures
        match node {
            Some(node) => json_contents(*value).contains_key(pointer@) && node@ == json_contents(
                *value,
            )[pointer@],
            None => !json_contents(*value).contains_key(pointer@),
        },
{
    Some(match value.pointer(pointer)? {
        serde_json::Value::Null => JsonNode::Null,
        serde_json::Value::Bool(value) => JsonNode::Bool(*value),
        serde_json::Value::Number(number) => JsonNode::Number(number.to_string()),
        serde_json::Value::String(text) => JsonNode::Text(text.clone()),
        serde_json::Value::Array(items) => JsonNode::Array(items.len()),
        serde_json::Value::Object(_) => JsonNode::Object,
    })
}

/// The JSON text of a list of texts.
pub uninterp spec fn json_list_text(texts: Seq<Seq<char>>) -> Seq<char>;

/// The list of texts that a JSON text denotes, or what is wrong with it.
pub uninterp spec fn json_list(text: Seq<char>) -> Result<Seq<Seq<char>>, Seq<char>>;

/// Whether a reading is a list of texts.
pub open spec fn denotes(
    reading: Result<Seq<Seq<char>>, Seq<char>>,
    texts: Seq<Seq<char>>,
) -> bool {
    reading matches Ok(list) && list == texts
}

/// Whether a reading is a message.
pub open spec fn explains(reading: Result<Seq<Seq<char>>, Seq<char>>, message: Seq<char>) -> bool {
    reading matches Err(words) && words == message
}

/// Writes a list of texts with `serde_json::to_string`, which cannot fail on texts. What it
/// writes depends on the texts alone, and reading it gives them back.
#[verifier::external_body]
pub(crate) fn encode_texts(texts: &Vec<String>) -> (text: String)
    ensures
        text@ == json_list_text(text_models(texts@)),
        denotes(json_list(text@), text_models(texts@)),
{
    serde_json::to_string(texts).expect("texts have a JSON form")
}

/// Reads a list of texts with `serde_json::from_str`. Whether the text denotes one, and which,
/// depends on the text alone, and so does the message where it denotes none.
#[verifier::external_body]
pub(crate) fn decode_texts(text: &str) -> (texts: Result<Vec<String>, String>)
    ensures
        match texts {
            Ok(texts) => denotes(json_list(text@), text_models(texts@)),
            Err(message) => explains(json_list(text@), message@),
        },
{
    serde_json::from_str(text).map_err(|error: serde_json::Error| error.to_string())
}

/// Words in backquotes, with commas between them.
pub open spec fn quoted_words(words: Seq<&str>) -> Seq<char>
    decreases words.len(),
{
    if words.len() == 0 {
        Seq::empty()
    } else if words.len() == 1 {
        "`"@ + words[0]@ + "`"@
    } else {
        quoted_words(words.drop_last()) + ", `"@ + words.last()@ + "`"@
    }
}

/// What is said of a word that is none of the known ones.
pub open spec fn unknown_word(word: Seq<char>, known: Seq<&str>) -> Seq<char> {
    "unknown variant `"@ + word + "`, expected one of "@ + quoted_words(known)
}

/// What `serde_json` says of a text that is none of an enumeration's three or more words, with
/// `serde::de::Error::unknown_variant`: it quotes the text and lists the words in their order.
#[verifier::external_body]
pub(crate) fn unknown_variant(word: &str, known: &'static [&'static str]) -> (text: String)
    requires
        known@.len() >= 3,
    ensures
        text@ == unknown_word(word@, known@),
{
    <serde_json::Error as serde::de::Error>::unknown_variant(word, known).to_string()
}

/// What is said of a word that is none of the known ones quotes it and lists them: the first in
/// backquotes, each other one behind a comma.
pub proof fn law_unknown_words_are_told_with_the_known_ones(
    word: Seq<char>,
    known: Seq<&str>,
    last: &str,
)
    ensures
        unknown_word(word, known) == "unknown variant `"@ + word + "`, expected one of "@
            + quoted_words(known),
        quoted_words(seq![last]) == "`"@ + last@ + "`"@,
        known.len() > 0 ==> quoted_words(known.push(last)) == quoted_words(known) + ", `"@ + last@
            + "`"@,
{
    assert(known.push(last).drop_last() =~= known);
}

} // verus!
