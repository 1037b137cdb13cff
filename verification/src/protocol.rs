//! The launcher protocol: newline-delimited JSON requests, the decision that each one
//! calls for, and the error replies that the host writes.

use vstd::prelude::*;
use vstd::string::{StrSliceExecFns, StringExecFns, StringSliceAdditionalSpecFns};
use vstd::utf8::encode_utf8;

use crate::decimal::{decimal_chars, push_decimal};
use crate::json::{
    json_escape, json_string_literal, json_unescape, lemma_encode_utf8_concat,
    lemma_encode_utf8_has_no_newline_byte, lemma_json_escape_has_no_newline,
    lemma_json_escape_round_trip,
};
use crate::result::{
    is_first_refusal, kept_count, map_results, results_pass, ResultItem,
};
use crate::text::ResultError;

verus! {

/// The protocol version that the host speaks.
pub const PROTOCOL_VERSION: u32 = 1;

/// The longest request line, in bytes.
pub const MAX_REQUEST_LINE: usize = 262144;

/// The most characters of a query text.
pub const MAX_QUERY_CHARS: usize = 4096;

/// The longest settings document of a query, in bytes.
pub const MAX_SETTINGS_JSON: usize = 262144;

/// The most results that a query may ask for.
pub const MAX_RESULTS: u32 = 100;

/// The settings document of a query that gives none: an empty JSON object.
pub fn default_settings_json() -> (r: String)
    ensures
        r@ == "{}"@,
{
    String::from_str("{}")
}

/// Appends the bytes of `s` to `output`.
pub fn append_str(output: &mut Vec<u8>, s: &str)
    ensures
        final(output)@ == old(output)@ + s.spec_bytes(),
{
    let bytes = s.as_bytes();
    let mut i: usize = 0;
    while i < bytes.len()
        invariant
            i <= bytes.len(),
            bytes@ == s.spec_bytes(),
            output@ == old(output)@ + bytes@.take(i as int),
        decreases bytes.len() - i,
    {
        output.push(bytes[i]);
        i = i + 1;
        assert(output@ =~= old(output)@ + bytes@.take(i as int));
    }
    assert(bytes@.take(i as int) =~= bytes@);
}

/// The error that serde_json reports.
#[verifier::external_type_specification]
#[verifier::external_body]
pub struct ExJsonError(serde_json::Error);

/// Encodes `s` as a JSON string with `serde_json::to_string`. It succeeds: `to_string`
/// writes into a `Vec<u8>`, whose writes never fail, and for a string the serializer's only
/// error is one that the writer reports. The text is `json_string_literal` of `s`: a quote,
/// each character through serde_json's escape table, a quote.
#[verifier::external_body]
fn json_string(s: &str) -> (r: Result<String, serde_json::Error>)
    ensures
        r is Ok,
        r matches Ok(t) ==> t@ == json_string_literal(s@),
{
    serde_json::to_string(s)
}

/// The `"id"` member of a reply, where the reply answers a request with an ID.
pub open spec fn id_member(id: Option<u64>) -> Seq<char> {
    match id {
        Some(n) => ",\"id\":"@ + decimal_chars(n as nat),
        None => Seq::empty(),
    }
}

/// The JSON text of an error reply, given its error message as a JSON string.
pub open spec fn error_reply(id: Option<u64>, error_json: Seq<char>) -> Seq<char> {
    "{\"type\":\"error\""@ + id_member(id) + ",\"error\":"@ + error_json + "}"@
}

/// An error reply holds no newline where its message does not: the line that carries it
/// ends at its one newline.
pub proof fn lemma_error_reply_has_no_newline(id: Option<u64>, error_json: Seq<char>)
    requires
        !error_json.contains('\n'),
    ensures
        !error_reply(id, error_json).contains('\n'),
{
    reveal_strlit("{\"type\":\"error\"");
    reveal_strlit(",\"id\":");
    reveal_strlit(",\"error\":");
    reveal_strlit("}");
    let reply = error_reply(id, error_json);
    let head = "{\"type\":\"error\""@;
    let member = id_member(id);
    let sep = ",\"error\":"@;
    let close = "}"@;
    if let Some(n) = id {
        crate::decimal::lemma_decimal_digits(n as nat);
    }
    assert forall|i: int| 0 <= i < reply.len() implies reply[i] != '\n' by {
        let a = head.len() as int;
        let b = a + member.len();
        let c = b + sep.len();
        let d = c + error_json.len();
        if i < a {
            assert(reply[i] == head[i]);
        } else if i < b {
            assert(reply[i] == member[i - a]);
            if let Some(n) = id {
                let prefix = ",\"id\":"@;
                if i - a < prefix.len() {
                    assert(member[i - a] == prefix[i - a]);
                } else {
                    assert(member[i - a] == crate::decimal::decimal_chars(n as nat)[i - a - prefix.len()]);
                }
            }
        } else if i < c {
            assert(reply[i] == sep[i - b]);
        } else if i < d {
            assert(reply[i] == error_json[i - c]);
        } else {
            assert(reply[i] == close[i - d]);
        }
    }
}

/// An error reply carries its message so that a JSON reader reads it back: the reply is
/// the object's head, the ID member, `"error":`, a string literal whose body reads back as
/// the message, and the closing brace.
pub proof fn lemma_error_reply_carries_message(id: Option<u64>, error: Seq<char>)
    ensures
        error_reply(id, json_string_literal(error)) == "{\"type\":\"error\""@ + id_member(id)
            + ",\"error\":"@ + seq!['"'] + json_escape(error) + seq!['"'] + "}"@,
        json_unescape(json_escape(error)) == Some(error),
{
    lemma_json_escape_round_trip(error);
    assert(error_reply(id, json_string_literal(error)) =~= "{\"type\":\"error\""@ + id_member(id)
        + ",\"error\":"@ + seq!['"'] + json_escape(error) + seq!['"'] + "}"@);
}

/// Appends to `output` the line of an error reply: a JSON object of type `error`, the ID of
/// the request where there is one, and the message, then a newline; the newline that ends
/// the appended bytes is the only one in them. Encoding the message
/// as a JSON string does not fail, so the reply is always written.
pub fn write_error(output: &mut Vec<u8>, id: Option<u64>, error: &str) -> (r: Result<
    (),
    serde_json::Error,
>)
    ensures
        r is Ok,
        final(output)@ == old(output)@ + encode_utf8(
            error_reply(id, json_string_literal(error@)) + "\n"@,
        ),
        !error_reply(id, json_string_literal(error@)).contains('\n'),
        ({
            let appended = final(output)@.skip(old(output)@.len() as int);
            &&& appended.len() > 0
            &&& appended.last() == 0x0au8
            &&& forall|i: int| 0 <= i < appended.len() - 1 ==> appended[i] != 0x0au8
        }),
{
    let message = match json_string(error) {
        Ok(m) => m,
        Err(e) => return Err(e),
    };
    let mut line = String::from_str("{\"type\":\"error\"");
    match id {
        Some(n) => {
            line.append(",\"id\":");
            push_decimal(&mut line, n);
        },
        None => {},
    }
    line.append(",\"error\":");
    line.append(message.as_str());
    line.append("}");
    line.append("\n");
    assert(line@ =~= error_reply(id, json_string_literal(error@)) + "\n"@);
    proof {
        let literal = json_string_literal(error@);
        lemma_json_escape_has_no_newline(error@);
        assert forall|i: int| 0 <= i < literal.len() implies literal[i] != '\n' by {
            if 0 < i < literal.len() - 1 {
                assert(literal[i] == json_escape(error@)[i - 1]);
            }
        }
        lemma_error_reply_has_no_newline(id, literal);
        let reply = error_reply(id, literal);
        reveal_strlit("\n");
        lemma_encode_utf8_concat(reply, "\n"@);
        lemma_encode_utf8_has_no_newline_byte(reply);
        assert(vstd::utf8::is_ascii_chars("\n"@));
        vstd::utf8::is_ascii_chars_encode_utf8("\n"@);
        assert(encode_utf8("\n"@)[0] == ("\n"@[0] as u8));
        assert(encode_utf8("\n"@) =~= seq![0x0au8]);
    }
    append_str(output, line.as_str());
    proof {
        let reply_bytes = encode_utf8(error_reply(id, json_string_literal(error@)));
        let appended = output@.skip(old(output)@.len() as int);
        assert(appended =~= reply_bytes + seq![0x0au8]);
        assert forall|i: int| 0 <= i < appended.len() - 1 implies appended[i] != 0x0au8 by {
            assert(appended[i] == reply_bytes[i]);
        }
    }
    Ok(())
}


/// A request from the launcher.
#[derive(Debug)]
pub enum Request {
    /// Opens the conversation and names the protocol version that the launcher speaks.
    Handshake { protocol: u32 },
    /// Asks the module for the results of a query.
    Query {
        id: u64,
        query: String,
        max_results: u32,
        locale: Option<String>,
        settings_json: String,
    },
}

/// The query that the host hands to the module.
#[derive(Debug)]
pub struct QueryContext {
    pub query: String,
    pub max_results: u32,
    pub locale: Option<String>,
    pub settings_json: String,
}

/// Why the host refuses a request line.
#[derive(Clone, Copy, PartialEq, Eq, Structural, Debug)]
pub enum RequestError {
    /// The line is longer than a request may be.
    RequestTooLarge,
    /// The handshake names another protocol version.
    UnsupportedProtocol,
    /// The query text or settings are too long, or the number of results asked for is not
    /// between 1 and 100.
    InvalidQueryLimits,
    /// The line is not a request.
    InvalidRequest,
}

/// The message of the error reply for `e`.
pub open spec fn request_error_message(e: RequestError) -> Seq<char> {
    match e {
        RequestError::RequestTooLarge => "request exceeds limit"@,
        RequestError::UnsupportedProtocol => "unsupported protocol"@,
        RequestError::InvalidQueryLimits => "invalid query limits"@,
        RequestError::InvalidRequest => "invalid request"@,
    }
}

impl RequestError {
    /// The message of the error reply for this refusal.
    pub fn message(&self) -> (r: String)
        ensures
            r@ == request_error_message(*self),
    {
        match self {
            RequestError::RequestTooLarge => String::from_str("request exceeds limit"),
            RequestError::UnsupportedProtocol => String::from_str("unsupported protocol"),
            RequestError::InvalidQueryLimits => String::from_str("invalid query limits"),
            RequestError::InvalidRequest => String::from_str("invalid request"),
        }
    }
}

/// What the host does with a request.
#[derive(Debug)]
pub enum Dispatch {
    /// Answers the handshake with the protocol version.
    Handshake,
    /// Writes an error reply, with the ID of the request where it has one.
    Reject { reply_to: Option<u64>, error: RequestError },
    /// Runs the query in the module and answers with its results.
    Query { id: u64, context: QueryContext },
}

/// Whether a request line of `line` bytes may be read as a request.
pub fn request_line_fits(line: &str) -> (r: bool)
    ensures
        r == (line.spec_bytes().len() <= MAX_REQUEST_LINE),
{
    line.as_bytes().len() <= MAX_REQUEST_LINE
}

/// Whether a query may run: at most 4096 characters of query text, at most 256 KiB of
/// settings, and between 1 and 100 results asked for.
pub open spec fn query_within_limits(query: Seq<char>, max_results: u32, settings_json: Seq<char>) -> bool {
    &&& query.len() <= MAX_QUERY_CHARS
    &&& encode_utf8(settings_json).len() <= MAX_SETTINGS_JSON
    &&& 1 <= max_results <= MAX_RESULTS
}

/// Decides what a request calls for; `None` stands for a line that is not a request.
pub fn dispatch_request(request: Option<Request>) -> (r: Dispatch)
    ensures
        match request {
            None => r == (Dispatch::Reject { reply_to: None, error: RequestError::InvalidRequest }),
            Some(Request::Handshake { protocol }) => if protocol == PROTOCOL_VERSION {
                r is Handshake
            } else {
                r == (Dispatch::Reject { reply_to: None, error: RequestError::UnsupportedProtocol })
            },
            Some(Request::Query { id, query, max_results, locale, settings_json }) => {
                if query_within_limits(query@, max_results, settings_json@) {
                    r == (Dispatch::Query {
                        id,
                        context: QueryContext { query, max_results, locale, settings_json },
                    })
                } else {
                    r == (Dispatch::Reject { reply_to: Some(id), error: RequestError::InvalidQueryLimits })
                }
            },
        },
{
    match request {
        None => Dispatch::Reject { reply_to: None, error: RequestError::InvalidRequest },
        Some(Request::Handshake { protocol }) => {
            if protocol == PROTOCOL_VERSION {
                Dispatch::Handshake
            } else {
                Dispatch::Reject { reply_to: None, error: RequestError::UnsupportedProtocol }
            }
        },
        Some(Request::Query { id, query, max_results, locale, settings_json }) => {
            if query.as_str().unicode_len() > MAX_QUERY_CHARS
                || settings_json.as_str().as_bytes().len() > MAX_SETTINGS_JSON || max_results == 0
                || max_results > MAX_RESULTS {
                Dispatch::Reject { reply_to: Some(id), error: RequestError::InvalidQueryLimits }
            } else {
                Dispatch::Query {
                    id,
                    context: QueryContext { query, max_results, locale, settings_json },
                }
            }
        },
    }
}

/// What a module answered to a query.
#[derive(Debug)]
pub struct QueryResult {
    pub results: Vec<ResultItem>,
    pub exclusive: bool,
}

/// How a call of the module's query ended.
#[derive(Debug)]
pub enum ModuleOutcome {
    /// The module answered.
    Answered(QueryResult),
    /// The module refused; the text describes its error.
    Refused(String),
    /// The module trapped; the text describes the trap.
    Trapped(String),
}

/// The reply to a query that the module ran.
#[derive(Debug)]
pub enum QueryReply {
    /// The checked results, at most as many as the query asked for.
    Value { results: Vec<ResultItem>, exclusive: bool },
    /// An error reply with this message.
    Error(String),
}

/// Turns the outcome of a query call into the reply. Where a kept result of the module
/// fails its checks, the host gives up with that refusal.
pub fn finish_query(max_results: u32, outcome: ModuleOutcome) -> (r: Result<QueryReply, ResultError>)
    ensures
        match outcome {
            ModuleOutcome::Answered(answer) => {
                &&& r is Ok <==> results_pass(answer.results@, max_results as int)
                &&& r matches Ok(reply) ==> reply matches QueryReply::Value { results, exclusive }
                    && results@ == answer.results@.take(
                    kept_count(answer.results@.len() as int, max_results as int),
                ) && exclusive == answer.exclusive
                &&& answer.results@.len() <= max_results ==> (r matches Ok(reply) ==> (
                    reply matches QueryReply::Value { results, exclusive } && results@
                        == answer.results@))
                &&& r matches Err(e) ==> is_first_refusal(answer.results@, max_results as int, e@)
            },
            ModuleOutcome::Refused(text) => r matches Ok(QueryReply::Error(m)) && m@ == text@,
            ModuleOutcome::Trapped(text) => r matches Ok(QueryReply::Error(m)) && m@
                == "module trapped: "@ + text@,
        },
{
    match outcome {
        ModuleOutcome::Answered(answer) => {
            let results = map_results(answer.results, max_results)?;
            Ok(QueryReply::Value { results, exclusive: answer.exclusive })
        },
        ModuleOutcome::Refused(text) => Ok(QueryReply::Error(text)),
        ModuleOutcome::Trapped(text) => {
            let mut m = String::from_str("module trapped: ");
            m.append(text.as_str());
            Ok(QueryReply::Error(m))
        },
    }
}

} // verus!
