//! Template expansion: the fetched template text is expanded against the
//! job's variables by an outside templating engine. The engine and the
//! JSON parsing are behind trusted wrappers; everything around the calls —
//! the size limit, the UTF-8 decoding, whether the variables' string
//! leaves are escaped for the typesetter, and the classification of the
//! outcome — is verified. The JSON value itself is opaque, so for the
//! escaping its string leaves travel out as plain values and back through
//! converting wrappers, and each leaf is escaped under a verified
//! contract in between.
//!
//! The engine's outcome is deliberately not named as a function of the
//! inputs: the engine joins some template-validation reports, and emits
//! the groups of its `group_by` filter, in the iteration order of a
//! per-instance-seeded hash map, so two calls on equal inputs may return
//! different text. The contracts here therefore state what holds of every
//! outcome, never which outcome comes.

use vstd::prelude::*;
use vstd::string::StrSliceExecFns;
use vstd::utf8::{valid_utf8, decode_utf8, encode_utf8};
use crate::body::{concat_chunks, total_len, read_body_with_limit};
use crate::errors::RenderError;

verus! {

#[verifier::external_type_specification]
#[verifier::external_body]
pub struct ExValue(serde_json::Value);

/// What the JSON parser makes of a variables text: acceptance, or its
/// error message. Both depend on the text alone, so this is a function.
pub uninterp spec fn json_parse_of(text: Seq<char>) -> Result<(), Seq<char>>;

/// Relies on serde_json::from_str::<serde_json::Value>: parses the
/// variables text into a JSON value. Whether the parse succeeds, and its
/// message when it fails, depend on the text alone (the parser reads
/// nothing else, and its recursion is depth-limited, not machine-bound):
/// that outcome is named `json_parse_of`. The parsed value itself is
/// opaque and unnamed.
#[verifier::external_body]
pub(crate) fn parse_variables(text: &str) -> (r: Result<serde_json::Value, String>)
    ensures
        match r {
            Ok(_) => json_parse_of(text@) is Ok,
            Err(m) => json_parse_of(text@) == Err::<(), Seq<char>>(m@),
        },
{
    match serde_json::from_str(text) {
        Ok(v) => Ok(v),
        Err(e) => Err(format!("{}", e)),
    }
}

/// Relies on serde_json::Value's variant shapes: hands the string leaves
/// out as plain values, in document order. Arrays and objects are walked;
/// other leaves contribute nothing.
#[verifier::external_body]
pub(crate) fn leaf_strings(v: &serde_json::Value) -> Vec<String> {
    match v {
        serde_json::Value::String(s) => vec![s.clone()],
        serde_json::Value::Array(items) => items.iter().flat_map(leaf_strings).collect(),
        serde_json::Value::Object(entries) => entries.values().flat_map(leaf_strings).collect(),
        _ => Vec::new(),
    }
}

/// Relies on serde_json::Value's variant shapes: rebuilds the tree with
/// its string leaves replaced, in the same document order, by the given
/// texts, advancing the cursor one leaf at a time; the structure and the
/// other leaves move unchanged. A leaf beyond the list becomes empty.
#[verifier::external_body]
pub(crate) fn replace_leaves(
    v: serde_json::Value,
    texts: &[Vec<u8>],
    next: &mut usize,
) -> serde_json::Value {
    match v {
        serde_json::Value::String(_) => {
            let bytes: &[u8] = if *next < texts.len() { &texts[*next] } else { &[] };
            *next += 1;
            serde_json::Value::String(String::from_utf8_lossy(bytes).into_owned())
        },
        serde_json::Value::Array(items) => serde_json::Value::Array(
            items.into_iter().map(|x| replace_leaves(x, texts, next)).collect(),
        ),
        serde_json::Value::Object(entries) => serde_json::Value::Object(
            entries.into_iter().map(|(k, x)| (k, replace_leaves(x, texts, next))).collect(),
        ),
        other => other,
    }
}

/// Relies on tera::Context::from_serialize and tera::Tera::one_off with
/// auto-escaping off: renders the template against the variables; any
/// failure of the two is returned as its message. No outcome is named
/// (see the module note on the engine's hash-map iteration order).
#[verifier::external_body]
pub(crate) fn tera_render(template: &str, variables: &serde_json::Value) -> Result<
    String,
    String,
> {
    let context = match tera::Context::from_serialize(variables) {
        Ok(c) => c,
        Err(e) => return Err(format!("{}", e)),
    };
    match tera::Tera::one_off(template, &context, false) {
        Ok(s) => Ok(s),
        Err(e) => Err(format!("{}", e)),
    }
}

/// Classifies the engine's outcome: expanded text is delivered as it is,
/// and an engine message becomes the expansion error, carried verbatim.
pub fn expansion_outcome(expansion: Result<String, String>) -> (r: Result<String, RenderError>)
    ensures
        expansion matches Ok(s) ==> r == Ok::<String, RenderError>(s),
        expansion matches Err(m) ==> (r matches Err(e) && e@ == crate::errors::ErrorView::ExpansionFailed(
            encode_utf8(m@),
        )),
{
    match expansion {
        Ok(s) => Ok(s),
        Err(m) => Err(RenderError::ExpansionFailed(m.as_str().as_bytes_vec())),
    }
}

/// Expands template text against variables given as JSON text: the text is
/// parsed, the string leaves are escaped for the typesetter unless
/// `no_escape_latex` forbids it, and the engine renders. Every failure
/// along the way is an expansion error.
pub fn expand_template(template: &str, variables_json: &str, no_escape_latex: bool) -> (r: Result<
    String,
    RenderError,
>)
    ensures
        r matches Err(e) ==> e is ExpansionFailed,
        match json_parse_of(variables_json@) {
            Err(m) => r matches Err(e) && e@ == crate::errors::ErrorView::ExpansionFailed(
                encode_utf8(m),
            ),
            Ok(_) => true,
        },
{
    let value = match parse_variables(variables_json) {
        Ok(v) => v,
        Err(m) => {
            return Err(RenderError::ExpansionFailed(m.as_str().as_bytes_vec()));
        },
    };
    let value = if no_escape_latex {
        value
    } else {
        // escape the string leaves: the leaves come out as plain values,
        // each is escaped under the verified contract, and the escaped
        // texts go back in their places
        let leaves = leaf_strings(&value);
        let escaped = crate::escape::escape_leaves(&leaves);
        let mut cursor: usize = 0;
        replace_leaves(value, escaped.as_slice(), &mut cursor)
    };
    expansion_outcome(tera_render(template, &value))
}

/// Expands a template, delivered as body chunks, against variables given
/// as JSON text, under the body size limit: the whole preview
/// computation. The body is rejected over the limit if and only if its
/// chunks exceed it; it must be UTF-8; past those checks, the engine's
/// outcome decides between the expanded text and an expansion error.
pub fn preview_text(
    chunks: &Vec<Vec<u8>>,
    variables_json: &str,
    no_escape_latex: bool,
    max: usize,
) -> (r: Result<String, RenderError>)
    ensures
        ({
            let body = concat_chunks(chunks@.map_values(|c: Vec<u8>| c@));
            &&& (r matches Err(e) && e is BodyTooLarge) <==> total_len(
                chunks@.map_values(|c: Vec<u8>| c@),
            ) > max
            &&& (r matches Err(e) && e is TemplateNotUtf8) <==> (total_len(
                chunks@.map_values(|c: Vec<u8>| c@),
            ) <= max && !valid_utf8(body))
            &&& total_len(chunks@.map_values(|c: Vec<u8>| c@)) <= max && valid_utf8(body) ==> (
            r is Ok || (r matches Err(e) && e is ExpansionFailed))
            &&& total_len(chunks@.map_values(|c: Vec<u8>| c@)) <= max && valid_utf8(body)
                ==> match json_parse_of(variables_json@) {
                Err(m) => r matches Err(e) && e@ == crate::errors::ErrorView::ExpansionFailed(
                    encode_utf8(m),
                ),
                Ok(_) => true,
            }
        }),
{
    let body = match read_body_with_limit(chunks, max) {
        Ok(b) => b,
        Err(_) => {
            return Err(RenderError::BodyTooLarge);
        },
    };
    let text = match bytes_to_string(body) {
        Ok(s) => s,
        Err(_) => {
            return Err(RenderError::TemplateNotUtf8);
        },
    };
    expand_template(text.as_str(), variables_json, no_escape_latex)
}

/// Relies on String::from_utf8: it succeeds exactly on valid UTF-8 and
/// returns a string of those very bytes.
#[verifier::external_body]
pub(crate) fn bytes_to_string(b: Vec<u8>) -> (r: Result<String, ()>)
    ensures
        r is Ok <==> valid_utf8(b@),
        r matches Ok(s) ==> s@ == decode_utf8(b@),
{
    match String::from_utf8(b) {
        Ok(s) => Ok(s),
        Err(_) => Err(()),
    }
}

} // verus!
