//! The line protocol with the host process: one JSON request per line, one JSON
//! reply per line.

use vstd::prelude::*;

use serde_json::Value;

use crate::text;
use crate::text::characters;
use crate::text::is_blank;
use crate::text::join;
use crate::text::str_eq;

verus! {

/// What is sent when the process is ready.
pub const READY_EVENT: &'static str =
    "{\"event\":\"ready\",\"data\":{\"version\":\"0.1.0-stub\"}}";

// ── JSON ────────────────────────────────────────────────────────────────────

/// A JSON value of the serde_json crate.
#[verifier::external_type_specification]
#[verifier::external_body]
pub struct ExValue(Value);

/// The members of a JSON object that are strings, by their names; none for
/// anything that is not an object.
pub uninterp spec fn string_members(v: Value) -> Map<Seq<char>, Seq<char>>;

/// The string members of the object that a JSON text holds, `None` for what is
/// not a JSON text.
pub uninterp spec fn parsed_string_members(json: Seq<char>) -> Option<Map<Seq<char>, Seq<char>>>;

/// serde_json's `from_str`, asked for a `Value`. What it accepts and what it
/// reads depend on the text alone; the contract names the string members of
/// what was read.
#[verifier::external_body]
pub(crate) fn parse_json(json: &str) -> (r: Option<Value>)
    ensures
        r is Some <==> parsed_string_members(json@) is Some,
        r matches Some(v) ==> parsed_string_members(json@) == Some(string_members(v)),
{
    serde_json::from_str::<Value>(json).ok()
}

/// Member `name` of a value, by serde_json's `Value::get`, as a string by
/// `Value::as_str`: there is one exactly where the value is an object that has a
/// member of that name and the member is a string.
#[verifier::external_body]
pub(crate) fn string_member(v: &Value, name: &str) -> (r: Option<String>)
    ensures
        r is Some <==> string_members(*v).contains_key(name@),
        r matches Some(s) ==> s@ == string_members(*v)[name@],
{
    v.get(name).and_then(Value::as_str).map(str::to_string)
}

// ── Replies ─────────────────────────────────────────────────────────────────

/// The result of a method as JSON, `None` for a method that there is none of.
pub open spec fn method_result(method: Seq<char>) -> Option<Seq<char>> {
    if method == "getStatus"@ {
        Some(
            "{\"bufferSize\":256,\"cpuLoad\":0.0,\"inputDevice\":null,\"outputDevice\":null,\"running\":true,\"sampleRate\":44100,\"version\":\"0.1.0-stub\",\"xrunCount\":0}"@,
        )
    } else if method == "getVersion"@ {
        Some("\"0.1.0-stub\""@)
    } else if method == "listInputDevices"@ || method == "listOutputDevices"@ {
        Some("[]"@)
    } else if method == "getTransportState"@ {
        Some("{\"playing\":false,\"positionSeconds\":0.0}"@)
    } else if method == "getMeters"@ {
        Some("{\"master\":{\"left\":0.0,\"right\":0.0},\"timestamp\":0,\"tracks\":{}}"@)
    } else if answers_null(method) {
        Some("null"@)
    } else {
        None
    }
}

/// Whether a method has nothing to say.
pub open spec fn answers_null(method: Seq<char>) -> bool {
    ||| method == "openDevice"@
    ||| method == "closeDevice"@
    ||| method == "start"@
    ||| method == "stop"@
    ||| method == "setTransportState"@
    ||| method == "updateTrackParam"@
    ||| method == "updateInsertParam"@
    ||| method == "loadProject"@
    ||| method == "updateClip"@
}

/// Perform a method: its result as JSON, or why it cannot be performed.
pub fn dispatch(method: &str) -> (r: Result<String, String>)
    ensures
        method_result(method@) matches Some(json) ==> (r matches Ok(text) && text@ == json),
        method_result(method@) is None ==> (r matches Err(why) && why@ == "Unknown method: "@
            + method@),
{
    if str_eq(method, "getStatus") {
        return Ok(
            "{\"bufferSize\":256,\"cpuLoad\":0.0,\"inputDevice\":null,\"outputDevice\":null,\"running\":true,\"sampleRate\":44100,\"version\":\"0.1.0-stub\",\"xrunCount\":0}".to_owned(),
        );
    }
    if str_eq(method, "getVersion") {
        return Ok("\"0.1.0-stub\"".to_owned());
    }
    if str_eq(method, "listInputDevices") || str_eq(method, "listOutputDevices") {
        return Ok("[]".to_owned());
    }
    if str_eq(method, "getTransportState") {
        return Ok("{\"playing\":false,\"positionSeconds\":0.0}".to_owned());
    }
    if str_eq(method, "getMeters") {
        return Ok(
            "{\"master\":{\"left\":0.0,\"right\":0.0},\"timestamp\":0,\"tracks\":{}}".to_owned(),
        );
    }
    let null: bool = str_eq(method, "openDevice") || str_eq(method, "closeDevice") || str_eq(
        method,
        "start",
    ) || str_eq(method, "stop") || str_eq(method, "setTransportState") || str_eq(
        method,
        "updateTrackParam",
    ) || str_eq(method, "updateInsertParam") || str_eq(method, "loadProject") || str_eq(
        method,
        "updateClip",
    );
    if null {
        return Ok("null".to_owned());
    }
    Err(join("Unknown method: ", method))
}

/// A text with every double quote made a single one.
pub open spec fn unquoted(s: Seq<char>) -> Seq<char> {
    s.map_values(
        |c: char|
            if c == '"' {
                '\''
            } else {
                c
            },
    )
}

/// A text with every double quote made a single one.
pub fn without_double_quotes(s: &str) -> (r: String)
    ensures
        r@ == unquoted(s@),
{
    let chars: Vec<char> = characters(s);
    let mut out: String = String::new();
    let mut i: usize = 0;
    while i < chars.len()
        invariant
            i <= chars@.len(),
            chars@ == s@,
            out@ == unquoted(s@.take(i as int)),
        decreases chars@.len() - i,
    {
        let c: char = if chars[i] == '"' {
            '\''
        } else {
            chars[i]
        };
        out.push(c);
        proof {
            assert(out@ =~= unquoted(s@.take(i + 1)));
        }
        i = i + 1;
    }
    proof {
        assert(s@.take(s@.len() as int) =~= s@);
    }
    out
}

/// The reply to a request.
pub open spec fn reply_text(id: Seq<char>, method: Seq<char>) -> Seq<char> {
    match method_result(method) {
        Some(json) => "{\"id\":\""@ + id + "\",\"result\":"@ + json + "}"@,
        None => "{\"id\":\""@ + id + "\",\"error\":\""@ + unquoted("Unknown method: "@ + method)
            + "\"}"@,
    }
}

/// The reply to a request.
pub fn reply(id: &str, method: &str) -> (r: String)
    ensures
        r@ == reply_text(id@, method@),
{
    let head: String = join("{\"id\":\"", id);
    match dispatch(method) {
        Ok(json) => {
            let head: String = join(&head, "\",\"result\":");
            let head: String = join(&head, &json);
            join(&head, "}")
        },
        Err(why) => {
            let head: String = join(&head, "\",\"error\":\"");
            let head: String = join(&head, &without_double_quotes(&why));
            join(&head, "\"}")
        },
    }
}

/// A string member, the empty text where there is none.
pub open spec fn member_or_empty(members: Map<Seq<char>, Seq<char>>, name: Seq<char>) -> Seq<char> {
    if members.contains_key(name) {
        members[name]
    } else {
        Seq::empty()
    }
}

/// What a line is answered: nothing to a blank one or to what is not JSON.
pub open spec fn line_answer(line: Seq<char>) -> Option<Seq<char>> {
    if text::blank(line) {
        None
    } else {
        match parsed_string_members(line) {
            Some(members) => Some(
                reply_text(member_or_empty(members, "id"@), member_or_empty(members, "method"@)),
            ),
            None => None,
        }
    }
}

/// What a line is answered.
pub fn answer_line(line: &str) -> (r: Option<String>)
    ensures
        text::optional(r) == line_answer(line@),
{
    if is_blank(line) {
        return None;
    }
    match parse_json(line) {
        Some(v) => {
            let id: String = match string_member(&v, "id") {
                Some(s) => s,
                None => String::new(),
            };
            let method: String = match string_member(&v, "method") {
                Some(s) => s,
                None => String::new(),
            };
            Some(reply(&id, &method))
        },
        None => None,
    }
}

/// The text that an error is answered with holds no double quote, so none of
/// it ends the reply's error string early.
pub proof fn law_error_text_holds_no_double_quote(s: Seq<char>, i: int)
    requires
        0 <= i < s.len(),
    ensures
        unquoted(s)[i] != '"',
{
}

/// Every answer carries the request's id, known method or not.
pub proof fn law_every_reply_carries_its_id(id: Seq<char>, method: Seq<char>)
    ensures
        text::has_prefix(reply_text(id, method), "{\"id\":\""@ + id),
{
    let head = "{\"id\":\""@ + id;
    let whole = reply_text(id, method);
    assert(whole.subrange(0, head.len() as int) =~= head);
}

/// A request is answered exactly where the line is not blank and holds a
/// request, and the answer is to the request's own id and method.
pub proof fn law_requests_are_answered(line: Seq<char>)
    ensures
        text::blank(line) ==> line_answer(line) is None,
        parsed_string_members(line) is None ==> line_answer(line) is None,
        !text::blank(line) && (parsed_string_members(line) matches Some(members)
            && members.contains_key("id"@) && members.contains_key("method"@)) ==> line_answer(
            line,
        ) == Some(
            reply_text(
                parsed_string_members(line)->0["id"@],
                parsed_string_members(line)->0["method"@],
            ),
        ),
        !text::blank(line) && parsed_string_members(line) is Some ==> line_answer(line) is Some,
{
}

/// Each method that is known has its result, and no other has one.
pub proof fn law_known_methods_have_a_result(method: Seq<char>)
    ensures
        method_result(method) is Some <==> (method == "getStatus"@ || method == "getVersion"@
            || method == "listInputDevices"@ || method == "listOutputDevices"@ || method
            == "getTransportState"@ || method == "getMeters"@ || method == "openDevice"@ || method
            == "closeDevice"@ || method == "start"@ || method == "stop"@ || method
            == "setTransportState"@ || method == "updateTrackParam"@ || method
            == "updateInsertParam"@ || method == "loadProject"@ || method == "updateClip"@),
{
}

/// A double quote becomes a single one, and every other character stays.
pub proof fn law_only_double_quotes_change(s: Seq<char>)
    ensures
        unquoted(s).len() == s.len(),
        forall|i: int|
            0 <= i < s.len() ==> (s[i] != '"' ==> (#[trigger] unquoted(s)[i]) == s[i]) && (s[i]
                == '"' ==> unquoted(s)[i] == '\''),
{
}

} // verus!
