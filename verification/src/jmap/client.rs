//! The JMAP client: what it sends, to which address, with which credentials, and how it
//! reads what comes back. The HTTP exchange itself is the transport's.

use vstd::prelude::*;

use crate::error::{error_text, Error};
use crate::jmap::types::{
    call_view, core_capability, decode_response, request_json, session_ok, BlobId, JmapRequest, JmapResponse, MethodCall,
    Session,
};
use crate::json::{member, texts, JsonValue, Jv};
use crate::text;

verus! {

/// Cap on a single blob download: larger than FastMail's 50MB upload limit, so a
/// fully-attached inbound message still fits.
pub const MAX_BLOB_SIZE: u64 = 104857600;

/// The session resource a client discovers when none is configured.
pub open spec fn default_session_url() -> Seq<char> {
    "https://api.fastmail.com/jmap/session"@
}

/// The HTTP exchanges a JMAP client makes. Implementations perform them; the client
/// decides what is sent and interprets what comes back, whatever it is.
pub trait HttpTransport {
    /// GET `url` with header `Authorization: authorization`; the reply body as JSON.
    fn get_json(&mut self, url: &str, authorization: &str) -> Result<JsonValue, Error>;

    /// POST the JSON document `body` to `url` with header `Authorization: authorization`;
    /// the reply body as JSON.
    fn post_json(&mut self, url: &str, authorization: &str, body: &JsonValue) -> Result<JsonValue, Error>;

    /// GET `url` with header `Authorization: authorization`; the raw reply body, refusing
    /// one longer than `limit` bytes.
    fn get_bytes(&mut self, url: &str, authorization: &str, limit: u64) -> Result<Vec<u8>, Error>;
}

/// One HTTP exchange as made: what was asked, and what came back.
pub ghost enum Exchanged {
    /// A GET of JSON.
    Get { url: Seq<char>, auth: Seq<char>, reply: Result<Jv, Error> },
    /// A POST of a JSON document.
    Post { url: Seq<char>, auth: Seq<char>, body: Jv, reply: Result<Jv, Error> },
    /// A GET of raw bytes, at most `limit` of them.
    Bytes { url: Seq<char>, auth: Seq<char>, limit: u64, reply: Result<Seq<u8>, Error> },
}

/// A reply document as a value.
pub open spec fn json_reply(r: Result<JsonValue, Error>) -> Result<Jv, Error> {
    match r {
        Ok(j) => Ok(j@),
        Err(e) => Err(e),
    }
}

/// A byte reply as a value.
pub open spec fn bytes_reply(r: Result<Vec<u8>, Error>) -> Result<Seq<u8>, Error> {
    match r {
        Ok(b) => Ok(b@),
        Err(e) => Err(e),
    }
}

/// A transport together with the record of every exchange made through it, in order.
/// The library makes its HTTP exchanges through this, so that its contracts can say what
/// each exchange asked and what was done with its reply.
pub struct Exchange<T> {
    pub transport: T,
    log: Ghost<Seq<Exchanged>>,
}

impl<T: HttpTransport> Exchange<T> {
    /// The exchanges made so far, in order.
    pub closed spec fn log(&self) -> Seq<Exchanged> {
        self.log@
    }

    /// Exchanges through `transport`, none made yet.
    pub fn new(transport: T) -> (r: Exchange<T>)
        ensures
            r.log() == Seq::<Exchanged>::empty(),
    {
        Exchange { transport, log: Ghost(Seq::empty()) }
    }

    /// GET `url` as JSON; the exchange is recorded.
    pub fn get_json(&mut self, url: &str, authorization: &str) -> (r: Result<JsonValue, Error>)
        ensures
            final(self).log() == old(self).log().push(Exchanged::Get { url: url@, auth: authorization@, reply: json_reply(r) }),
    {
        let r = self.transport.get_json(url, authorization);
        self.log = Ghost(self.log@.push(Exchanged::Get { url: url@, auth: authorization@, reply: json_reply(r) }));
        r
    }

    /// POST the JSON document `body` to `url`; the exchange is recorded.
    pub fn post_json(&mut self, url: &str, authorization: &str, body: &JsonValue) -> (r: Result<JsonValue, Error>)
        ensures
            final(self).log() == old(self).log().push(
                Exchanged::Post { url: url@, auth: authorization@, body: body@, reply: json_reply(r) }),
    {
        let r = self.transport.post_json(url, authorization, body);
        self.log = Ghost(self.log@.push(Exchanged::Post { url: url@, auth: authorization@, body: body@, reply: json_reply(r) }));
        r
    }

    /// GET `url` as raw bytes, at most `limit` of them; the exchange is recorded.
    pub fn get_bytes(&mut self, url: &str, authorization: &str, limit: u64) -> (r: Result<Vec<u8>, Error>)
        ensures
            final(self).log() == old(self).log().push(Exchanged::Bytes {
                url: url@,
                auth: authorization@,
                limit: limit,
                reply: bytes_reply(r),
            }),
    {
        let r = self.transport.get_bytes(url, authorization, limit);
        self.log = Ghost(self.log@.push(Exchanged::Bytes {
            url: url@,
            auth: authorization@,
            limit: limit,
            reply: bytes_reply(r),
        }));
        r
    }
}

/// Whether `after` is `before` with one more exchange.
pub open spec fn one_more(before: Seq<Exchanged>, after: Seq<Exchanged>) -> bool {
    after.len() > 0 && after == before.push(after.last())
}

/// What a JMAP exchange gives for a reply: the transport's error, a JSON error for a
/// document that is no JMAP response, or the responses and session state it holds.
pub open spec fn response_outcome(reply: Result<Jv, Error>, r: Result<JmapResponse, Error>) -> bool {
    match reply {
        Err(e) => r == Err::<JmapResponse, Error>(e),
        Ok(j) => match decode_response(j) {
            None => r matches Err(e) && e is Json,
            Some((rs, st)) => r matches Ok(resp) && resp.responses_view() == rs && resp.session_state@ == st,
        },
    }
}

/// What a single-call exchange gives for `method`: the outcome of the exchange, then the
/// first response's arguments or the error it reports (see `one_result`).
pub open spec fn single_outcome(method: Seq<char>, reply: Result<Jv, Error>, r: Result<JsonValue, Error>) -> bool {
    match reply {
        Err(e) => r == Err::<JsonValue, Error>(e),
        Ok(j) => match decode_response(j) {
            None => r matches Err(e) && e is Json,
            Some((rs, _)) => match one_result(method, rs) {
                Ok(v) => r matches Ok(x) && x@ == v,
                Err(m) => r matches Err(e) && is_jmap_error(e, m),
            },
        },
    }
}

/// The body of a single-call request: the core capability and `capability`, and the one
/// call `method` with `args`, as `call-0`.
pub open spec fn single_request(capability: Seq<char>, method: Seq<char>, args: Jv) -> Jv {
    request_json(seq![core_capability(), capability], seq![(method, args, "call-0"@)])
}

/// Whether the last exchange of `log` posted `body` to `api` with the bearer `token`.
pub open spec fn posted(log: Seq<Exchanged>, api: Seq<char>, token: Seq<char>, body: Jv) -> bool {
    &&& log.len() > 0
    &&& (log.last() matches Exchanged::Post { url, auth, body: b, .. } && url == api && auth == bearer(token) && b == body)
}

/// The reply of the last exchange of `log`, when it is a POST.
pub open spec fn last_reply(log: Seq<Exchanged>) -> Result<Jv, Error> {
    log.last()->Post_reply
}

/// Whether, after `before`, the log `after` holds exactly one more exchange: the single
/// call `method` with `args` under `capability`, posted to this client's API with its
/// token, whose outcome is `r`.
pub open spec fn single_call(
    c: JmapClient,
    before: Seq<Exchanged>,
    after: Seq<Exchanged>,
    capability: Seq<char>,
    method: Seq<char>,
    args: Jv,
    r: Result<JsonValue, Error>,
) -> bool {
    &&& one_more(before, after)
    &&& posted(after, c.api_url_view(), c.token_view(), single_request(capability, method, args))
    &&& single_outcome(method, last_reply(after), r)
}

/// The arguments a single call of `method` gave in `reply`, when it gave a result (see
/// `single_outcome`).
pub open spec fn single_ok(method: Seq<char>, reply: Result<Jv, Error>) -> Option<Jv> {
    match reply {
        Err(_) => None,
        Ok(j) => match decode_response(j) {
            None => None,
            Some((rs, _)) => match one_result(method, rs) {
                Ok(v) => Some(v),
                Err(_) => None,
            },
        },
    }
}

/// Whether `e` is the error a single-call exchange for `method` ends in when it gives no
/// result (see `single_ok`): the transport's error as it came, a JSON error for a reply
/// that is no JMAP response, or the JMAP error that the first response reports.
pub open spec fn single_failed(method: Seq<char>, reply: Result<Jv, Error>, e: Error) -> bool {
    match reply {
        Err(x) => e == x,
        Ok(j) => match decode_response(j) {
            None => e is Json,
            Some((rs, _)) => match one_result(method, rs) {
                Err(m) => is_jmap_error(e, m),
                Ok(_) => false,
            },
        },
    }
}

/// Whether the log `after` is `before` with one more exchange: the single call `method`
/// with `args` under `capability`, posted to this client's API with its token.
pub open spec fn single_sent(
    c: JmapClient,
    before: Seq<Exchanged>,
    after: Seq<Exchanged>,
    capability: Seq<char>,
    method: Seq<char>,
    args: Jv,
) -> bool {
    one_more(before, after) && posted(after, c.api_url_view(), c.token_view(), single_request(capability, method, args))
}

/// A JMAP client bound to one API endpoint and token.
#[derive(Debug)]
pub struct JmapClient {
    api_url: String,
    token: String,
    download_url: String,
}

/// The `Authorization` header for a bearer token.
pub open spec fn bearer(token: Seq<char>) -> Seq<char> {
    "Bearer "@ + token
}

/// What a single-call response yields for `method`: the first response's arguments, or
/// the error the server reported in it (its `type`, else "unknown error"), or an error
/// when there is no response at all.
pub open spec fn one_result(method: Seq<char>, responses: Seq<(Seq<char>, Jv, Seq<char>)>) -> Result<Jv, (Seq<char>, Seq<char>)> {
    if responses.len() == 0 {
        Err((method, "empty response"@))
    } else if responses[0].0 == "error"@ {
        Err((method, match member(responses[0].1, "type"@) {
            Some(Jv::Str(t)) => t,
            _ => "unknown error"@,
        }))
    } else {
        Ok(responses[0].1)
    }
}

/// Whether `e` is the JMAP error (method, message).
pub open spec fn is_jmap_error(e: Error, m: (Seq<char>, Seq<char>)) -> bool {
    e matches Error::Jmap { method, message } && method@ == m.0 && message@ == m.1
}

/// The download URL for a blob: the session template with `{accountId}`, `{blobId}`,
/// `{name}` and `{type}` filled in, in that order.
pub open spec fn download_url_spec(template: Seq<char>, account_id: Seq<char>, blob_id: Seq<char>, name: Seq<char>, content_type: Seq<char>) -> Seq<char> {
    text::replace_all(
        text::replace_all(
            text::replace_all(text::replace_all(template, "{accountId}"@, account_id), "{blobId}"@, blob_id),
            "{name}"@,
            name,
        ),
        "{type}"@,
        content_type,
    )
}

/// The session URL to use: the configured one, else FastMail's.
pub fn session_url(configured: Option<&str>) -> (r: String)
    ensures
        match configured {
            Some(u) => r@ == u@,
            None => r@ == default_session_url(),
        },
{
    match configured {
        Some(u) => text::own(u),
        None => text::own("https://api.fastmail.com/jmap/session"),
    }
}

/// The first response of a single-call exchange, or the error it reports.
pub fn one_response(method: &str, resp: JmapResponse) -> (r: Result<JsonValue, Error>)
    ensures
        match one_result(method@, resp.responses_view()) {
            Ok(v) => r matches Ok(x) && x@ == v,
            Err(m) => r matches Err(e) && is_jmap_error(e, m),
        },
{
    let mut rs = resp.method_responses;
    if rs.len() == 0 {
        return Err(Error::jmap(method, "empty response"));
    }
    let first = rs.remove(0);
    let (name, data, _) = first;
    if text::str_eq(name.as_str(), "error") {
        let msg = match data.get("type") {
            Some(t) => match t.as_str() {
                Some(s) => text::own(s),
                None => text::own("unknown error"),
            },
            None => text::own("unknown error"),
        };
        return Err(Error::Jmap { method: text::own(method), message: msg });
    }
    Ok(data)
}

impl JmapClient {
    /// The API endpoint.
    pub closed spec fn api_url_view(self) -> Seq<char> {
        self.api_url@
    }

    /// The bearer token.
    pub closed spec fn token_view(self) -> Seq<char> {
        self.token@
    }

    /// The blob download template.
    pub closed spec fn download_url_view(self) -> Seq<char> {
        self.download_url@
    }

    /// A client for a known API endpoint, with no download template.
    pub fn new(api_url: String, token: String) -> (r: JmapClient)
        ensures
            r.api_url_view() == api_url@,
            r.token_view() == token@,
            r.download_url_view().len() == 0,
    {
        JmapClient { api_url, token, download_url: String::new() }
    }

    /// The API endpoint this client posts to.
    pub fn api_url(&self) -> (r: &str)
        ensures
            r@ == self.api_url_view(),
    {
        self.api_url.as_str()
    }

    /// The `Authorization` header this client sends.
    pub fn authorization(&self) -> (r: String)
        ensures
            r@ == bearer(self.token_view()),
    {
        text::concat("Bearer ", self.token.as_str())
    }

    /// Fetch the session resource at `session_url` and create a client for its API.
    pub fn connect_to<T: HttpTransport>(t: &mut Exchange<T>, session_url: &str, token: &str) -> (r: Result<(JmapClient, Session), Error>)
        ensures
            one_more(old(t).log(), final(t).log()),
            final(t).log().last() matches Exchanged::Get { url, auth, reply } && url == session_url@
                && auth == bearer(token@) && match reply {
                    Err(e) => r matches Err(x) && x == e,
                    Ok(j) => if session_ok(j) {
                        r matches Ok((c, s)) && s.read_from(j) && c.api_url_view() == s.api_url@
                            && c.token_view() == token@ && c.download_url_view() == s.download_url@
                    } else {
                        r matches Err(x) && x is Json
                    },
                },
    {
        let auth = text::concat("Bearer ", token);
        let body = match t.get_json(session_url, auth.as_str()) {
            Ok(b) => b,
            Err(e) => return Err(e),
        };
        let session = match Session::from_json(&body) {
            Ok(s) => s,
            Err(e) => return Err(e),
        };
        let client = JmapClient {
            api_url: session.api_url.clone(),
            token: text::own(token),
            download_url: session.download_url.clone(),
        };
        Ok((client, session))
    }

    /// Send one JMAP request with the given capabilities and method calls: one POST of
    /// the request document to the API endpoint with the bearer token, and the reply read
    /// as a JMAP response (see `response_outcome`).
    pub fn call<T: HttpTransport>(&self, t: &mut Exchange<T>, using: Vec<String>, method_calls: Vec<MethodCall>) -> (r: Result<JmapResponse, Error>)
        ensures
            one_more(old(t).log(), final(t).log()),
            posted(final(t).log(), self.api_url_view(), self.token_view(),
                request_json(texts(using@), method_calls@.map_values(|c: MethodCall| call_view(c)))),
            response_outcome(last_reply(final(t).log()), r),
    {
        let req = JmapRequest { using, method_calls };
        let body = req.to_json();
        let auth = self.authorization();
        let reply = match t.post_json(self.api_url.as_str(), auth.as_str(), &body) {
            Ok(j) => j,
            Err(e) => return Err(e),
        };
        JmapResponse::from_json(&reply)
    }

    /// Make a single method call with the core capability and `capability`, and take its
    /// result (see `single_call`).
    pub fn call_one<T: HttpTransport>(&self, t: &mut Exchange<T>, capability: &str, method: &str, args: JsonValue) -> (r: Result<JsonValue, Error>)
        ensures
            single_call(*self, old(t).log(), final(t).log(), capability@, method@, args@, r),
    {
        let ghost a = args@;
        let using = vec![text::own("urn:ietf:params:jmap:core"), text::own(capability)];
        let method_calls = vec![(text::own(method), args, text::own("call-0"))];
        proof {
            assert(texts(using@) =~= seq![core_capability(), capability@]);
            assert(method_calls@.map_values(|c: MethodCall| call_view(c)) =~= seq![(method@, a, "call-0"@)]);
        }
        let resp = match self.call(t, using, method_calls) {
            Ok(x) => x,
            Err(e) => return Err(e),
        };
        one_response(method, resp)
    }

    /// The URL that downloads a blob.
    pub fn download_url_for(&self, account_id: &str, blob_id: &BlobId, name: &str, content_type: &str) -> (r: String)
        ensures
            r@ == download_url_spec(self.download_url_view(), account_id@, blob_id.0@, name@, content_type@),
    {
        proof {
            reveal_strlit("{accountId}");
            reveal_strlit("{blobId}");
            reveal_strlit("{name}");
            reveal_strlit("{type}");
        }
        let u1 = text::replace(self.download_url.as_str(), "{accountId}", account_id);
        let u2 = text::replace(u1.as_str(), "{blobId}", blob_id.as_str());
        let u3 = text::replace(u2.as_str(), "{name}", name);
        text::replace(u3.as_str(), "{type}", content_type)
    }

    /// Download a blob's raw bytes via the session download template: one GET of its
    /// download URL with the bearer token, at most `MAX_BLOB_SIZE` bytes, whose reply is
    /// the result.
    pub fn download_blob<T: HttpTransport>(&self, t: &mut Exchange<T>, account_id: &str, blob_id: &BlobId, name: &str, content_type: &str) -> (r: Result<Vec<u8>, Error>)
        ensures
            one_more(old(t).log(), final(t).log()),
            final(t).log().last() matches Exchanged::Bytes { url, auth, limit, reply }
                && url == download_url_spec(self.download_url_view(), account_id@, blob_id.0@, name@, content_type@)
                && auth == bearer(self.token_view()) && limit == MAX_BLOB_SIZE
                && match reply {
                    Ok(b) => r matches Ok(x) && x@ == b,
                    Err(e) => r matches Err(x) && x == e,
                },
    {
        let url = self.download_url_for(account_id, blob_id, name, content_type);
        let auth = self.authorization();
        t.get_bytes(url.as_str(), auth.as_str(), MAX_BLOB_SIZE)
    }
}

} // verus!
