//! Rejections of JSON request bodies: what a client is told when its body is
//! not JSON, cannot be read, or does not fit the expected shape.
use crate::text::{chars_of, find, first_occurrence, has_prefix, occurs_at, starts_with, string_of_range};
use vstd::prelude::*;
use vstd::string::StringExecFns;

verus! {

/// Parsed components of a serde_json error message for type/value mismatches.
#[derive(Debug)]
pub struct ParsedSerdeError {
    pub received: Option<String>,
    pub expected: Option<String>,
}

pub open spec fn opt_view(o: Option<String>) -> Option<Seq<char>> {
    match o {
        Some(s) => Some(s@),
        None => None,
    }
}

/// The parts of `msg` after `prefix`, around the first ", expected ".
pub open spec fn split_after(msg: Seq<char>, prefix: Seq<char>) -> Option<(Seq<char>, Seq<char>)> {
    if has_prefix(msg, prefix) && first_occurrence(msg.skip(prefix.len() as int), ", expected "@) is Some {
        let rest = msg.skip(prefix.len() as int);
        let sep = first_occurrence(rest, ", expected "@)->0;
        Some((rest.take(sep), rest.skip(sep + ", expected "@.len())))
    } else {
        None
    }
}

/// A message "invalid type: {received}, expected {expected}" (or
/// "invalid value: …") split into its two parts; any other message into none.
pub open spec fn serde_error_parts(msg: Seq<char>) -> (Option<Seq<char>>, Option<Seq<char>>) {
    match split_after(msg, "invalid type: "@) {
        Some((r, e)) => (Some(r), Some(e)),
        None => match split_after(msg, "invalid value: "@) {
            Some((r, e)) => (Some(r), Some(e)),
            None => (None, None),
        },
    }
}

fn split_message(msg: &Vec<char>, prefix: &str) -> (r: Option<(String, String)>)
    ensures
        r matches Some((a, b)) ==> split_after(msg@, prefix@) == Some((a@, b@)),
        r is None ==> split_after(msg@, prefix@) is None,
{
    let p = chars_of(prefix);
    if !starts_with(msg.as_slice(), p.as_slice()) {
        return None;
    }
    let sep_text = chars_of(", expected ");
    let mut rest: Vec<char> = Vec::new();
    let mut i: usize = p.len();
    while i < msg.len()
        invariant
            p@ == prefix@,
            p@.len() <= i <= msg@.len(),
            rest@ == msg@.subrange(p@.len() as int, i as int),
        decreases msg@.len() - i,
    {
        rest.push(msg[i]);
        assert(msg@.subrange(p@.len() as int, i + 1) == msg@.subrange(p@.len() as int, i as int).push(
            msg@[i as int],
        ));
        i = i + 1;
    }
    assert(rest@ == msg@.skip(p@.len() as int));
    match find(rest.as_slice(), sep_text.as_slice()) {
        None => None,
        Some(sep) => {
            let received = string_of_range(rest.as_slice(), 0, sep);
            let expected = string_of_range(rest.as_slice(), sep + sep_text.len(), rest.len());
            assert(rest@.subrange(0, sep as int) == rest@.take(sep as int));
            assert(rest@.subrange((sep + sep_text@.len()) as int, rest@.len() as int) == rest@.skip(
                sep + sep_text@.len(),
            ));
            Some((received, expected))
        },
    }
}

/// Attempts to split serde_json error messages of the form
/// "invalid type: {received}, expected {expected}" (and "invalid value: …")
/// into their constituent parts.
pub fn parse_serde_error(msg: &str) -> (r: ParsedSerdeError)
    ensures
        (opt_view(r.received), opt_view(r.expected)) == serde_error_parts(msg@),
{
    let chars = chars_of(msg);
    match split_message(&chars, "invalid type: ") {
        Some((received, expected)) => {
            return ParsedSerdeError { received: Some(received), expected: Some(expected) };
        },
        None => {},
    }
    match split_message(&chars, "invalid value: ") {
        Some((received, expected)) => {
            ParsedSerdeError { received: Some(received), expected: Some(expected) }
        },
        None => ParsedSerdeError { received: None, expected: None },
    }
}

/// The reason a JSON body was rejected.
#[derive(Debug, Clone, Copy, PartialEq, Eq, Structural)]
pub enum JsonRejectionKind {
    /// The Content-Type is not `application/json`.
    InvalidContentType,
    /// The body could not be read.
    UnreadableBody,
    /// The body is not JSON of the expected shape.
    InvalidJson,
}

/// What a client is told about a rejected JSON body: an HTTP status and the
/// fields of the `{"status": "error", ...}` object.
#[derive(Debug)]
pub struct JsonRejection {
    pub status: u16,
    pub code: String,
    pub message: String,
    pub field: Option<String>,
    pub received: Option<String>,
    pub expected: Option<String>,
}

/// The rejection of a body whose Content-Type is not JSON: 415,
/// `invalid_content_type`, "Expected Content-Type: application/json".
pub open spec fn is_content_type_rejection(e: JsonRejection) -> bool {
    &&& e.status == 415
    &&& e.code@ == "invalid_content_type"@
    &&& e.message@ == "Expected Content-Type: application/json"@
    &&& e.field is None && e.received is None && e.expected is None
}

/// The rejection of a body that could not be read: 400, `invalid_json`,
/// "Failed to read request body".
pub open spec fn is_unreadable_rejection(e: JsonRejection) -> bool {
    &&& e.status == 400
    &&& e.code@ == "invalid_json"@
    &&& e.message@ == "Failed to read request body"@
    &&& e.field is None && e.received is None && e.expected is None
}

/// The rejection of a body that does not deserialise, at `path` with
/// serde_json's message `inner`: 422, `invalid_json`, the message naming the
/// field, the field unless at the root, and what was received and expected.
pub open spec fn is_invalid_json_rejection(e: JsonRejection, path: Seq<char>, inner: Seq<char>) -> bool {
    &&& e.status == 422
    &&& e.code@ == "invalid_json"@
    &&& e.message@ == field_message(path, without_location(inner))
    &&& opt_view(e.field) == (if path == "."@ || path.len() == 0 {
        None::<Seq<char>>
    } else {
        Some(path)
    })
    &&& (opt_view(e.received), opt_view(e.expected)) == serde_error_parts(without_location(inner))
}

/// Whether a Content-Type header admits the body as JSON: it must start with
/// `application/json`. A missing or unreadable header counts as empty.
pub fn is_json_content_type(content_type: Option<&str>) -> (b: bool)
    ensures
        b == (content_type matches Some(ct) && has_prefix(ct@, "application/json"@)),
{
    match content_type {
        None => false,
        Some(ct) => {
            let c = chars_of(ct);
            let p = chars_of("application/json");
            starts_with(c.as_slice(), p.as_slice())
        },
    }
}

/// The rejection of a body whose Content-Type is not JSON (415).
pub fn content_type_rejection() -> (r: JsonRejection)
    ensures
        is_content_type_rejection(r),
{
    JsonRejection {
        status: 415,
        code: String::from_str("invalid_content_type"),
        message: String::from_str("Expected Content-Type: application/json"),
        field: None,
        received: None,
        expected: None,
    }
}

/// The rejection of a body that could not be read (400).
pub fn unreadable_body_rejection() -> (r: JsonRejection)
    ensures
        is_unreadable_rejection(r),
{
    JsonRejection {
        status: 400,
        code: String::from_str("invalid_json"),
        message: String::from_str("Failed to read request body"),
        field: None,
        received: None,
        expected: None,
    }
}

/// `inner` without serde_json's " at line N column M" suffix: everything
/// before the first " at line ".
pub open spec fn without_location(inner: Seq<char>) -> Seq<char> {
    match first_occurrence(inner, " at line "@) {
        Some(i) => inner.take(i),
        None => inner,
    }
}

/// The message naming the field at `path`, or the bare error at the root.
pub open spec fn field_message(path: Seq<char>, clean: Seq<char>) -> Seq<char> {
    if path == "."@ || path.len() == 0 {
        clean
    } else {
        "Invalid value for field '"@ + path + "': "@ + clean
    }
}

fn append_chars(out: &mut String, s: &str)
    ensures
        final(out)@ == old(out)@ + s@,
{
    out.append(s);
}

/// The rejection of a body that does not deserialize (422). `path` is where
/// the error sits ("." or empty at the root) and `inner` serde_json's message.
pub fn invalid_json_rejection(path: &str, inner: &str) -> (r: JsonRejection)
    ensures
        is_invalid_json_rejection(r, path@, inner@),
{
    let inner_chars = chars_of(inner);
    let marker = chars_of(" at line ");
    let clean = match find(inner_chars.as_slice(), marker.as_slice()) {
        Some(i) => string_of_range(inner_chars.as_slice(), 0, i),
        None => string_of_range(inner_chars.as_slice(), 0, inner_chars.len()),
    };
    proof {
        crate::text::lemma_first_occurrence(inner@, " at line "@);
        assert(inner_chars@.subrange(0, inner_chars@.len() as int) == inner_chars@);
        if let Some(i) = first_occurrence(inner@, " at line "@) {
            assert(inner_chars@.subrange(0, i) == inner_chars@.take(i));
        }
    }
    let parsed = parse_serde_error(clean.as_str());
    let path_chars = chars_of(path);
    let root = path_chars.len() == 0 || crate::text::same_text(path, ".");
    let (message, field) = if root {
        (clean, None)
    } else {
        let mut m = String::from_str("Invalid value for field '");
        append_chars(&mut m, path);
        append_chars(&mut m, "': ");
        append_chars(&mut m, clean.as_str());
        (m, Some(String::from_str(path)))
    };
    JsonRejection {
        status: 422,
        code: String::from_str("invalid_json"),
        message,
        field,
        received: parsed.received,
        expected: parsed.expected,
    }
}

/// A JSON request body, parsed.
pub struct JsonE<T>(pub T);

/// A JSON request body, parsed where it could be.
pub struct MaybeJsonE<T>(pub Option<T>);

/// How reading and deserialising a request body went.
pub enum BodyParse<T> {
    /// The body could not be read.
    Unreadable,
    /// The body deserialised into a value.
    Parsed(T),
    /// The body did not deserialise: where (`path`) and why (`inner`).
    Invalid { path: String, inner: String },
}

/// Extracts a JSON body: a non-JSON Content-Type is refused before the body
/// is looked at; then an unreadable body, then one that does not
/// deserialise.
pub fn extract_json<T>(content_type: Option<&str>, body: BodyParse<T>) -> (r: Result<JsonE<T>, JsonRejection>)
    ensures
        !(content_type matches Some(ct) && has_prefix(ct@, "application/json"@)) ==> (r matches Err(e)
            && is_content_type_rejection(e)),
        (content_type matches Some(ct) && has_prefix(ct@, "application/json"@)) ==> match body {
            BodyParse::Unreadable => r matches Err(e) && is_unreadable_rejection(e),
            BodyParse::Parsed(v) => r matches Ok(j) && j.0 == v,
            BodyParse::Invalid { path, inner } => r matches Err(e) && is_invalid_json_rejection(
                e,
                path@,
                inner@,
            ),
        },
{
    if !is_json_content_type(content_type) {
        return Err(content_type_rejection());
    }
    match body {
        BodyParse::Unreadable => Err(unreadable_body_rejection()),
        BodyParse::Parsed(v) => Ok(JsonE(v)),
        BodyParse::Invalid { path, inner } => Err(invalid_json_rejection(path.as_str(), inner.as_str())),
    }
}

/// An optional JSON body: any rejection just means there is none.
pub fn extract_maybe_json<T>(r: Result<JsonE<T>, JsonRejection>) -> (m: MaybeJsonE<T>)
    ensures
        match r {
            Ok(j) => m.0 == Some(j.0),
            Err(_) => m.0 is None,
        },
{
    match r {
        Ok(JsonE(v)) => MaybeJsonE(Some(v)),
        Err(_) => MaybeJsonE(None),
    }
}

/// An optional JSON body is never refused: it holds the value where a
/// required body would be accepted, and nothing where that would be
/// rejected, whatever the reason.
pub fn extract_maybe_json_body<T>(content_type: Option<&str>, body: BodyParse<T>) -> (m: MaybeJsonE<T>)
    ensures
        m.0 is Some <==> (content_type matches Some(ct) && has_prefix(ct@, "application/json"@)
            && body is Parsed),
        (content_type matches Some(ct) && has_prefix(ct@, "application/json"@)) ==> (body matches BodyParse::Parsed(v)
            ==> m.0 == Some(v)),
{
    extract_maybe_json(extract_json(content_type, body))
}

/// The two parts of a serde_json type or value error, as `parse_serde_error`
/// finds them: both or neither; when both, the message is one of the two
/// prefixes, the received part, ", expected " and the expected part, where
/// the received part holds no ", expected " (the split is at the first one);
/// when neither, the message has no such form.
pub proof fn law_serde_error_decomposition(msg: Seq<char>)
    ensures
        serde_error_parts(msg).0 is Some <==> serde_error_parts(msg).1 is Some,
        serde_error_parts(msg) matches (Some(r), Some(e)) ==> {
            &&& (msg == ("invalid type: "@ + r) + ", expected "@ + e || msg == ("invalid value: "@ + r)
                + ", expected "@ + e)
            &&& forall|j: int| 0 <= j < r.len() ==> !occurs_at(r + ", expected "@ + e, ", expected "@, j)
        },
        serde_error_parts(msg).0 is None ==> !has_split_form(msg),
{
    lemma_split_after(msg, "invalid type: "@);
    lemma_split_after(msg, "invalid value: "@);
    if let Some((r, e)) = split_after(msg, "invalid type: "@) {
        assert(("invalid type: "@ + r) + ", expected "@ + e == msg);
    } else if let Some((r, e)) = split_after(msg, "invalid value: "@) {
        assert(("invalid value: "@ + r) + ", expected "@ + e == msg);
    }
}

/// Whether `msg` starts with one of the two prefixes and, after it, holds
/// ", expected " somewhere.
pub open spec fn has_split_form(msg: Seq<char>) -> bool {
    ||| (has_prefix(msg, "invalid type: "@) && exists|j: int|
        occurs_at(msg.skip("invalid type: "@.len() as int), ", expected "@, j))
    ||| (has_prefix(msg, "invalid value: "@) && exists|j: int|
        occurs_at(msg.skip("invalid value: "@.len() as int), ", expected "@, j))
}

proof fn lemma_split_after(msg: Seq<char>, prefix: Seq<char>)
    ensures
        split_after(msg, prefix) matches Some((r, e)) ==> (prefix + r) + ", expected "@ + e == msg && forall|j: int|
            0 <= j < r.len() ==> !occurs_at(r + ", expected "@ + e, ", expected "@, j),
        split_after(msg, prefix) is None ==> !(has_prefix(msg, prefix) && exists|j: int|
            occurs_at(msg.skip(prefix.len() as int), ", expected "@, j)),
{
    let sep = ", expected "@;
    let rest = msg.skip(prefix.len() as int);
    crate::text::lemma_first_occurrence(rest, sep);
    if let Some((r, e)) = split_after(msg, prefix) {
        let k = first_occurrence(rest, sep)->0;
        assert(rest.subrange(k, k + sep.len()) == sep);
        assert(r + sep + e =~= rest);
        assert(msg.take(prefix.len() as int) == prefix);
        assert(msg =~= prefix + rest);
        assert((prefix + r) + sep + e =~= msg);
    }
}
} // verus!
