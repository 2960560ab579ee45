//! Recording of request/response pairs as JSON files, for later use as test data: what
//! each record holds and the name of its file. Reading the clock and writing the file
//! are the caller's.

use vstd::prelude::*;

use crate::json::{JsonObject, JsonValue, Jv};
use crate::json_text::{parse_json, parsed_json};
use crate::text;

verus! {

/// Records request/response pairs into a directory, one JSON file per interaction.
#[derive(Debug)]
pub struct Recorder {
    pub dir: String,
}

/// One interaction to record.
#[derive(Debug)]
pub struct RecordEntry {
    pub prefix: String,
    pub method: String,
    pub entry: JsonValue,
}

/// `n` in decimal, left-padded with zeros to `width` digits.
pub open spec fn zero_padded(n: nat, width: nat) -> Seq<char> {
    let d = text::decimal(n);
    if d.len() >= width { d } else { Seq::new((width - d.len()) as nat, |i: int| '0') + d }
}

/// Decimal text of `n`, left-padded with zeros to `width` digits.
pub fn zero_pad(n: u64, width: usize) -> (r: String)
    ensures
        r@ == zero_padded(n as nat, width as nat),
{
    let d = text::decimal_string(n);
    let dv = text::chars_of(d.as_str());
    if dv.len() >= width {
        return d;
    }
    let mut out: Vec<char> = Vec::new();
    let pad = width - dv.len();
    let mut i: usize = 0;
    while i < pad
        invariant
            i <= pad,
            out@ == Seq::new(i as nat, |k: int| '0'),
        decreases pad - i,
    {
        out.push('0');
        i = i + 1;
        assert(out@ =~= Seq::new(i as nat, |k: int| '0'));
    }
    let mut j: usize = 0;
    let ghost zeros = out@;
    while j < dv.len()
        invariant
            j <= dv@.len(),
            out@ == zeros + dv@.take(j as int),
        decreases dv.len() - j,
    {
        out.push(dv[j]);
        j = j + 1;
        assert(out@ =~= zeros + dv@.take(j as int));
    }
    assert(dv@.take(dv@.len() as int) =~= dv@);
    text::string_of(&out)
}

/// The timestamp of a record: whole seconds, a dot, and milliseconds in three digits.
pub fn timestamp_text(secs: u64, millis: u64) -> (r: String)
    ensures
        r@ == text::decimal(secs as nat) + "."@ + zero_padded(millis as nat, 3),
{
    let s = text::decimal_string(secs);
    let m = zero_pad(millis, 3);
    text::concat3(s.as_str(), ".", m.as_str())
}

/// The timestamp part of a record's file name: whole seconds, an underscore, and
/// microseconds in six digits.
pub fn timestamp_filename_text(secs: u64, micros: u64) -> (r: String)
    ensures
        r@ == text::decimal(secs as nat) + "_"@ + zero_padded(micros as nat, 6),
{
    let s = text::decimal_string(secs);
    let m = zero_pad(micros, 6);
    text::concat3(s.as_str(), "_", m.as_str())
}

/// The file name of a record: `{ts}_{prefix}_{method}.json`, with each `/` of the method
/// made `_`.
pub open spec fn file_name_spec(ts: Seq<char>, prefix: Seq<char>, method: Seq<char>) -> Seq<char> {
    ts + "_"@ + prefix + "_"@ + text::replace_all(method, "/"@, "_"@) + ".json"@
}

impl Recorder {
    /// The file name of a record (see `file_name_spec`).
    pub fn file_name(ts: &str, prefix: &str, method: &str) -> (r: String)
        ensures
            r@ == file_name_spec(ts@, prefix@, method@),
    {
        proof { reveal_strlit("/"); }
        let safe = text::replace(method, "/", "_");
        let a = text::concat3(ts, "_", prefix);
        let b = text::concat3(a.as_str(), "_", safe.as_str());
        text::concat(b.as_str(), ".json")
    }

    /// The record of a JMAP (or tool) exchange.
    pub fn jmap_entry(timestamp: &str, method: &str, request: JsonValue, response: JsonValue) -> (r: RecordEntry)
        ensures
            r.prefix@ == "jmap"@,
            r.method@ == method@,
            r.entry@ == Jv::Obj(map![
                "type"@ => Jv::Str("jmap"@),
                "timestamp"@ => Jv::Str(timestamp@),
                "method"@ => Jv::Str(method@),
                "request"@ => request@,
                "response"@ => response@
            ]),
    {
        let ghost (q, s) = (request@, response@);
        let o = JsonObject::new()
            .with("type", JsonValue::string("jmap"))
            .with("timestamp", JsonValue::string(timestamp))
            .with("method", JsonValue::string(method))
            .with("request", request)
            .with("response", response);
        let entry = JsonValue::object(o);
        assert(entry@->Obj_0 =~= map![
                "type"@ => Jv::Str("jmap"@),
                "timestamp"@ => Jv::Str(timestamp@),
                "method"@ => Jv::Str(method@),
                "request"@ => q,
                "response"@ => s
            ]);
        RecordEntry { prefix: text::own("jmap"), method: text::own(method), entry }
    }

    /// The record of an MCP message, `kind` being `mcp_request` or `mcp_response`, and
    /// `prefix` the file prefix of that kind.
    pub fn mcp_entry(kind: &str, prefix: &str, timestamp: &str, method: &str, message: JsonValue) -> (r: RecordEntry)
        ensures
            r.prefix@ == prefix@,
            r.method@ == method@,
            r.entry@ == Jv::Obj(map![
                "type"@ => Jv::Str(kind@),
                "timestamp"@ => Jv::Str(timestamp@),
                "method"@ => Jv::Str(method@),
                "message"@ => message@
            ]),
    {
        let ghost mv = message@;
        let o = JsonObject::new()
            .with("type", JsonValue::string(kind))
            .with("timestamp", JsonValue::string(timestamp))
            .with("method", JsonValue::string(method))
            .with("message", message);
        let entry = JsonValue::object(o);
        assert(entry@->Obj_0 =~= map![
                "type"@ => Jv::Str(kind@),
                "timestamp"@ => Jv::Str(timestamp@),
                "method"@ => Jv::Str(method@),
                "message"@ => mv
            ]);
        RecordEntry { prefix: text::own(prefix), method: text::own(method), entry }
    }

    /// The record of a raw MCP message: as `mcp_entry`, with the message read as JSON
    /// (null where the text is not JSON).
    pub fn mcp_message_entry(kind: &str, prefix: &str, timestamp: &str, method: &str, raw: &str) -> (r: RecordEntry)
        ensures
            r.prefix@ == prefix@,
            r.method@ == method@,
            r.entry@ == mcp_record(kind@, timestamp@, method@, raw@),
    {
        Recorder::mcp_entry(kind, prefix, timestamp, method, mcp_message(raw))
    }

    /// The record of an incoming MCP message: kind `mcp_request`, file prefix `mcp_req`.
    pub fn record_mcp_request(timestamp: &str, method: &str, raw: &str) -> (r: RecordEntry)
        ensures
            r.prefix@ == "mcp_req"@,
            r.method@ == method@,
            r.entry@ == mcp_record("mcp_request"@, timestamp@, method@, raw@),
    {
        Recorder::mcp_message_entry("mcp_request", "mcp_req", timestamp, method, raw)
    }

    /// The record of an outgoing MCP response: kind `mcp_response`, file prefix
    /// `mcp_resp`.
    pub fn record_mcp_response(timestamp: &str, method: &str, raw: &str) -> (r: RecordEntry)
        ensures
            r.prefix@ == "mcp_resp"@,
            r.method@ == method@,
            r.entry@ == mcp_record("mcp_response"@, timestamp@, method@, raw@),
    {
        Recorder::mcp_message_entry("mcp_response", "mcp_resp", timestamp, method, raw)
    }
}

/// The record of a raw MCP message of `kind`: its kind, timestamp, method, and the
/// message it holds (see `mcp_message_spec`).
pub open spec fn mcp_record(kind: Seq<char>, timestamp: Seq<char>, method: Seq<char>, raw: Seq<char>) -> Jv {
    Jv::Obj(map![
        "type"@ => Jv::Str(kind),
        "timestamp"@ => Jv::Str(timestamp),
        "method"@ => Jv::Str(method),
        "message"@ => mcp_message_spec(raw)
    ])
}

/// The message a raw MCP line records: the JSON it holds, or null where it is not JSON.
pub open spec fn mcp_message_spec(raw: Seq<char>) -> Jv {
    match parsed_json(raw) {
        Some(v) => v,
        None => Jv::Null,
    }
}

/// The JSON of a raw MCP message, or null where the text is not JSON.
pub fn mcp_message(raw: &str) -> (r: JsonValue)
    ensures
        r@ == mcp_message_spec(raw@),
{
    match parse_json(raw) {
        Some(v) => v,
        None => {
            proof { JsonValue::Null.lemma_view(); }
            JsonValue::Null
        },
    }
}

} // verus!
