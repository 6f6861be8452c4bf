//! The trusted boundary: the only places where the library calls another
//! crate. Each wrapper's contract states what the call returns; nothing
//! else in the library is taken on trust.

use vstd::prelude::*;
use crate::value::JsonValue;

verus! {

#[verifier::external_type_specification]
#[verifier::external_body]
pub struct ExValue(serde_json::Value);

/// What parsing a line as JSON yields when it is not valid JSON: the
/// parser's message and the column it reports.
pub struct ParseFailure {
    pub msg: String,
    pub column: usize,
}

/// What `serde_json::from_str` yields on a text, carried over to this
/// library's value type: the parsed value, or the parser's message and
/// column. The outcome depends on the text alone.
pub uninterp spec fn parsed_json_of(s: Seq<char>) -> Result<JsonValue, ParseFailure>;

/// Relies on serde_json::from_str: whether a text parses as JSON, the
/// value it parses to, and the rejection's message and column are
/// functions of the text alone.
#[verifier::external_body]
pub fn parse_json_line(s: &str) -> (r: Result<JsonValue, ParseFailure>)
    ensures
        r == parsed_json_of(s@),
{
    match serde_json::from_str::<serde_json::Value>(s) {
        Ok(v) => Ok(convert_value(v)),
        Err(e) => {
            let column = e.column();
            Err(ParseFailure { msg: e.to_string(), column })
        },
    }
}

/// Relies on serde_json::Value: each variant is carried across one to
/// one, object entries in their original order, a number as the text
/// serde_json prints for it.
#[verifier::external_body]
fn convert_value(v: serde_json::Value) -> JsonValue {
    match v {
        serde_json::Value::Null => JsonValue::Null,
        serde_json::Value::Bool(b) => JsonValue::Bool(b),
        serde_json::Value::Number(n) => JsonValue::Num(n.to_string()),
        serde_json::Value::String(s) => JsonValue::Str(s),
        serde_json::Value::Array(a) => JsonValue::Arr(a.into_iter().map(convert_value).collect()),
        serde_json::Value::Object(m) => JsonValue::Obj(
            m.into_iter().map(|(k, x)| (k, convert_value(x))).collect(),
        ),
    }
}

/// The reason phrase that the HTTP status catalogue gives a numeric
/// status code; a function of the code alone.
pub uninterp spec fn reason_phrase_spec(code: u16) -> Seq<char>;

/// Relies on httpstatus::StatusCode::reason_phrase: the phrase depends
/// on the numeric code alone.
#[verifier::external_body]
pub fn reason_phrase(code: u16) -> (r: String)
    ensures
        r@ == reason_phrase_spec(code),
{
    let status = httpstatus::StatusCode::from(code);
    status.reason_phrase().to_string()
}

/// The text a JSON-ish input re-indents to under a given indent width; a
/// function of the text and the width alone.
pub uninterp spec fn pretty_json_of(s: Seq<char>, indent: i32) -> Seq<char>;

/// Relies on json_pretty::PrettyFormatter::pretty: the re-indented text
/// depends on the input text and the indent width alone. The formatter
/// tracks nesting in a signed 32-bit counter that grows by the indent
/// width at every opening brace or bracket and shrinks at every closing
/// one, so the width and the text length are bounded here to keep that
/// arithmetic in range on every input.
#[verifier::external_body]
pub fn pretty_json(s: &str, indent: i32) -> (r: String)
    requires
        0 <= indent <= 1000,
        s@.len() <= 1000000,
    ensures
        r@ == pretty_json_of(s@, indent),
{
    let mut base = json_pretty::PrettyFormatter::from_str(s);
    let formatter = base.indent(indent);
    formatter.pretty()
}

} // verus!
