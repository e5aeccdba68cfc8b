use vstd::prelude::*;
use vstd::string::StringExecFns;

use crate::errors::EsError;
use crate::script_content::ScriptContent;

verus! {

/// The keys of the JSON object at `.k1.k2` of a body, in the parser's
/// (sorted) key order; `None` when the body does not parse or that path
/// is missing or is not an object.
pub uninterp spec fn json_keys_at_path(body: Seq<char>, k1: Seq<char>, k2: Seq<char>) -> Option<
    Seq<Seq<char>>,
>;

/// The string at `.k1.k2` of a body; `None` when the body does not parse
/// or that path is missing or is not a string.
pub uninterp spec fn json_string_at_path(body: Seq<char>, k1: Seq<char>, k2: Seq<char>) -> Option<
    Seq<char>,
>;

/// Whether a body parses to JSON holding the member `k`.
pub uninterp spec fn json_has_member(body: Seq<char>, k: Seq<char>) -> bool;

/// The serialized form of `{ outer: { k1: v1, k2: v2 } }`.
pub uninterp spec fn json_two_field_object(
    outer: Seq<char>,
    k1: Seq<char>,
    v1: Seq<char>,
    k2: Seq<char>,
    v2: Seq<char>,
) -> Seq<char>;

/// Relies on `serde_json::from_str`, `serde_json::Value::get`,
/// `serde_json::Value::as_object` and `serde_json::Map::keys`: parses the
/// body and hands out the keys of the object at `.k1.k2`, or `None` when
/// the body does not parse or that path is missing or is not an object.
#[verifier::external_body]
fn lookup_keys_at_path(body: &str, k1: &str, k2: &str) -> (r: Option<Vec<String>>)
    ensures
        json_keys_at_path(body@, k1@, k2@) == match r {
            Some(v) => Some(v.deep_view()),
            None => None::<Seq<Seq<char>>>,
        },
{
    let parsed: serde_json::Value = serde_json::from_str(body).ok()?;
    let object = parsed.get(k1)?.get(k2)?.as_object()?;
    Some(object.keys().cloned().collect())
}

/// Relies on `serde_json::from_str`, `serde_json::Value::get` and
/// `serde_json::Value::as_str`: parses the body and hands out the string
/// at `.k1.k2`, or `None` when the body does not parse or that path is
/// missing or is not a string. A string found under `.k1.k2` means the
/// parsed body has the member `k1`.
#[verifier::external_body]
fn lookup_string_at_path(body: &str, k1: &str, k2: &str) -> (r: Option<String>)
    ensures
        json_string_at_path(body@, k1@, k2@) == match r {
            Some(s) => Some(s@),
            None => None::<Seq<char>>,
        },
        r is Some ==> json_has_member(body@, k1@),
{
    let parsed: serde_json::Value = serde_json::from_str(body).ok()?;
    let value = parsed.get(k1)?.get(k2)?.as_str()?;
    Some(value.to_owned())
}

/// Relies on `serde_json::from_str` and `serde_json::Value::get`: whether
/// the body parses to JSON that has the member `k`.
#[verifier::external_body]
fn lookup_has_member(body: &str, k: &str) -> (r: bool)
    ensures
        r == json_has_member(body@, k@),
{
    match serde_json::from_str::<serde_json::Value>(body) {
        Ok(parsed) => parsed.get(k).is_some(),
        Err(_) => false,
    }
}

/// Relies on `serde_json::Map::insert`, `serde_json::Value::String`,
/// `serde_json::Value::Object` and `serde_json::to_string`: serializes
/// `{ outer: { k1: v1, k2: v2 } }`. Parsing the serialized text again
/// finds the member `outer` and, under it, the two string values that
/// went in (for `k1` only when the two keys differ: with equal keys the
/// later value wins).
#[verifier::external_body]
fn encode_two_field_object(outer: &str, k1: &str, v1: &str, k2: &str, v2: &str) -> (r: String)
    ensures
        r@ == json_two_field_object(outer@, k1@, v1@, k2@, v2@),
        json_has_member(r@, outer@),
        k1@ != k2@ ==> json_string_at_path(r@, outer@, k1@) == Some(v1@),
        json_string_at_path(r@, outer@, k2@) == Some(v2@),
{
    let mut inner = serde_json::Map::new();
    inner.insert(k1.to_owned(), serde_json::Value::String(v1.to_owned()));
    inner.insert(k2.to_owned(), serde_json::Value::String(v2.to_owned()));
    let mut root = serde_json::Map::new();
    root.insert(outer.to_owned(), serde_json::Value::Object(inner));
    serde_json::to_string(&serde_json::Value::Object(root)).unwrap_or_else(|_| String::new())
}

/// Whether an HTTP status code reports success.
pub open spec fn spec_is_success_status(status: u16) -> bool {
    200 <= status < 300
}

pub fn is_success_status(status: u16) -> (r: bool)
    ensures
        r == spec_is_success_status(status),
{
    200 <= status && status < 300
}

/// The verified core of listing stored templates: handles one node's
/// response to the cluster-state query. On a success status the template
/// names are the keys of the `metadata.stored_scripts` object of the
/// body; a missing or non-object path is a `MalformedResponse`; a
/// non-success status is a `RemoteStatusError` carrying the body text.
pub fn handle_list_response(status: u16, body: &str) -> (r: Result<Vec<String>, EsError>)
    ensures
        match r {
            Ok(names) => spec_is_success_status(status) && json_keys_at_path(
                body@,
                "metadata"@,
                "stored_scripts"@,
            ) == Some(names.deep_view()),
            Err(e) => match e {
                EsError::RemoteStatusError(s, b) => !spec_is_success_status(status) && s == status
                    && b@ == body@,
                EsError::MalformedResponse(_) => spec_is_success_status(status)
                    && json_keys_at_path(body@, "metadata"@, "stored_scripts"@) is None,
                _ => false,
            },
        },
{
    if !is_success_status(status) {
        return Err(EsError::RemoteStatusError(status, String::from_str(body)));
    }
    match lookup_keys_at_path(body, "metadata", "stored_scripts") {
        Some(names) => Ok(names),
        None => Err(
            EsError::MalformedResponse(
                String::from_str("the metadata.stored_scripts path is missing or is not an object"),
            ),
        ),
    }
}

/// The verified core of fetching one template: handles one node's
/// response to the per-template GET. On a success status the template is
/// read from the body's `script.lang` and `script.source` strings; a body
/// without a `script` member is a `TemplateNotFound`; a `script` member
/// without the two strings is a `MalformedResponse`; a non-success status
/// is a `RemoteStatusError` carrying the body text.
pub fn handle_get_response(status: u16, body: &str) -> (r: Result<ScriptContent, EsError>)
    ensures
        match r {
            Ok(c) => spec_is_success_status(status) && json_string_at_path(
                body@,
                "script"@,
                "lang"@,
            ) == Some(c.lang@) && json_string_at_path(body@, "script"@, "source"@) == Some(
                c.source@,
            ),
            Err(e) => match e {
                EsError::RemoteStatusError(s, b) => !spec_is_success_status(status) && s == status
                    && b@ == body@,
                EsError::TemplateNotFound(_) => spec_is_success_status(status) && !json_has_member(
                    body@,
                    "script"@,
                ),
                EsError::MalformedResponse(_) => spec_is_success_status(status) && json_has_member(
                    body@,
                    "script"@,
                ) && (json_string_at_path(body@, "script"@, "lang"@) is None
                    || json_string_at_path(body@, "script"@, "source"@) is None),
                _ => false,
            },
        },
{
    if !is_success_status(status) {
        return Err(EsError::RemoteStatusError(status, String::from_str(body)));
    }
    if !lookup_has_member(body, "script") {
        return Err(EsError::TemplateNotFound(String::from_str("the body has no script member")));
    }
    let lang = lookup_string_at_path(body, "script", "lang");
    let source = lookup_string_at_path(body, "script", "source");
    match (lang, source) {
        (Some(lang), Some(source)) => Ok(ScriptContent::new(lang, source)),
        _ => Err(
            EsError::MalformedResponse(
                String::from_str("the script member does not hold lang and source strings"),
            ),
        ),
    }
}

/// The verified core of uploading one template: handles one node's
/// response to the per-template PUT. A success status completes the
/// upload; any other status is a `RemoteStatusError` carrying the
/// response body text.
pub fn handle_put_response(status: u16, body: &str) -> (r: Result<(), EsError>)
    ensures
        match r {
            Ok(_) => spec_is_success_status(status),
            Err(e) => e matches EsError::RemoteStatusError(s, b) && s == status && b@ == body@
                && !spec_is_success_status(status),
        },
{
    if is_success_status(status) {
        Ok(())
    } else {
        Err(EsError::RemoteStatusError(status, String::from_str(body)))
    }
}

/// The serialized upload body `{ "script": { "lang": .., "source": .. } }`
/// for a template. Parsing the result again yields the same two fields,
/// so a fetch that follows an upload returns the template unchanged.
pub fn build_put_body(content: &ScriptContent) -> (r: String)
    ensures
        r@ == json_two_field_object(
            "script"@,
            "lang"@,
            content.lang@,
            "source"@,
            content.source@,
        ),
        json_string_at_path(r@, "script"@, "lang"@) == Some(content.lang@),
        json_string_at_path(r@, "script"@, "source"@) == Some(content.source@),
        json_has_member(r@, "script"@),
{
    proof {
        reveal_strlit("lang");
        reveal_strlit("source");
        assert("lang"@.len() == 4);
        assert("source"@.len() == 6);
        assert("lang"@ != "source"@);
    }
    encode_two_field_object(
        "script",
        "lang",
        content.lang.as_str(),
        "source",
        content.source.as_str(),
    )
}

/// The per-template endpoint path `/_scripts/{name}`.
pub fn script_endpoint(name: &str) -> (r: String)
    ensures
        r@ == "/_scripts/"@ + name@,
{
    String::from_str("/_scripts/").concat(name)
}

} // verus!
