//! JMAP `Email`: ids, state tokens, query windows, the typed responses, the accessors,
//! and an enumerator that walks every id matching a filter.

use vstd::prelude::*;

use crate::error::Error;
use crate::jmap::client::{
    last_reply, one_more, posted, single_failed, single_ok, single_request, single_sent, Exchange, Exchanged, HttpTransport,
    JmapClient,
};
use crate::jmap::types::BlobId;
use crate::jmap::{set_args_of, SetResponse};
use crate::json::{
    member, obj_member, opt_str_member, opt_u64_member, read_bool, read_opt_str, read_opt_u64, read_str,
    read_str_list, read_u64, str_list_member, str_member, texts, u64_member, JsonObject, JsonValue, Jv,
};
use crate::text;

verus! {

/// A JMAP `Email` id.
#[derive(Debug, PartialEq, Eq)]
pub struct EmailId(pub String);

impl Clone for EmailId {
    fn clone(&self) -> (r: Self)
        ensures
            r.0@ == self.0@,
    {
        EmailId(self.0.clone())
    }
}

impl EmailId {
    pub fn as_str(&self) -> (r: &str)
        ensures
            r@ == self.0@,
    {
        self.0.as_str()
    }

    /// The id as text, as it is shown.
    pub fn to_string(&self) -> (r: String)
        ensures
            r@ == self.0@,
    {
        text::own(self.0.as_str())
    }
}

/// A JMAP state token: the cursor for incremental sync.
#[derive(Debug, PartialEq, Eq)]
pub struct State(pub String);

impl Clone for State {
    fn clone(&self) -> (r: Self)
        ensures
            r.0@ == self.0@,
    {
        State(self.0.clone())
    }
}

impl State {
    pub fn as_str(&self) -> (r: &str)
        ensures
            r@ == self.0@,
    {
        self.0.as_str()
    }

    /// The state token as text, as it is shown.
    pub fn to_string(&self) -> (r: String)
        ensures
            r@ == self.0@,
    {
        text::own(self.0.as_str())
    }
}

/// Which body values an `Email/get` asks the server to fetch.
#[derive(Debug, Clone, Copy, PartialEq, Eq)]
pub struct BodyFetch {
    pub text: bool,
    pub html: bool,
    pub all: bool,
}

/// The texts of a list of email ids.
pub open spec fn id_texts(ids: Seq<EmailId>) -> Seq<Seq<char>> {
    ids.map_values(|i: EmailId| i.0@)
}

/// Email ids from strings.
pub fn email_ids(v: Vec<String>) -> (r: Vec<EmailId>)
    ensures
        id_texts(r@) == texts(v@),
{
    let mut out: Vec<EmailId> = Vec::new();
    let mut i: usize = 0;
    while i < v.len()
        invariant
            i <= v@.len(),
            out@.len() == i,
            forall|j: int| 0 <= j < i ==> (#[trigger] out@[j]).0@ == v@[j]@,
        decreases v.len() - i,
    {
        out.push(EmailId(v[i].clone()));
        i = i + 1;
    }
    assert(id_texts(out@) =~= texts(v@));
    out
}

/// The strings of a list of email ids.
pub fn id_strings(ids: &[EmailId]) -> (r: Vec<String>)
    ensures
        texts(r@) == id_texts(ids@),
{
    let mut out: Vec<String> = Vec::new();
    let mut i: usize = 0;
    while i < ids.len()
        invariant
            i <= ids@.len(),
            out@.len() == i,
            forall|j: int| 0 <= j < i ==> (#[trigger] out@[j])@ == ids@[j].0@,
        decreases ids.len() - i,
    {
        out.push(ids[i].0.clone());
        i = i + 1;
    }
    assert(texts(out@) =~= id_texts(ids@));
    out
}

/// A window into an `Email/query` result set: a plain offset, or an anchor id (which does
/// not skip under concurrent inserts) and an offset from it.
pub enum Page {
    Position { position: u64, limit: u32 },
    Anchor { anchor: EmailId, anchor_offset: i64, limit: u32 },
}

/// The JSON form of an integer.
pub open spec fn int_jv(n: int) -> Jv {
    if n >= 0 { Jv::UInt(n as u64) } else { Jv::Int(n as i64) }
}

/// The arguments of an `Email/query` for one window.
pub open spec fn query_args(account_id: Seq<char>, filter: Jv, sort: Jv, page: Page) -> Jv {
    let base = map!["accountId"@ => Jv::Str(account_id), "filter"@ => filter, "sort"@ => sort];
    Jv::Obj(match page {
        Page::Position { position, limit } => base.insert("position"@, Jv::UInt(position)).insert("limit"@, Jv::UInt(limit as u64)),
        Page::Anchor { anchor, anchor_offset, limit } => base
            .insert("anchor"@, Jv::Str(anchor.0@))
            .insert("anchorOffset"@, int_jv(anchor_offset as int))
            .insert("limit"@, Jv::UInt(limit as u64)),
    })
}

/// The arguments of an `Email/query` for one window (see `query_args`).
pub fn query_args_of(account_id: &str, filter: JsonValue, sort: JsonValue, page: Page) -> (r: JsonValue)
    ensures
        r@ == query_args(account_id@, filter@, sort@, page),
{
    let ghost (fv, sv) = (filter@, sort@);
    let mut o = JsonObject::new()
        .with("accountId", JsonValue::string(account_id))
        .with("filter", filter)
        .with("sort", sort);
    match &page {
        Page::Position { position, limit } => {
            proof { JsonValue::UInt(*position).lemma_view(); JsonValue::UInt(*limit as u64).lemma_view(); }
            o.insert(text::own("position"), JsonValue::UInt(*position));
            o.insert(text::own("limit"), JsonValue::UInt(*limit as u64));
        },
        Page::Anchor { anchor, anchor_offset, limit } => {
            proof { JsonValue::UInt(*limit as u64).lemma_view(); }
            o.insert(text::own("anchor"), JsonValue::string(anchor.as_str()));
            o.insert(text::own("anchorOffset"), crate::mcp::types::int_value(*anchor_offset));
            o.insert(text::own("limit"), JsonValue::UInt(*limit as u64));
        },
    }
    let r = JsonValue::object(o);
    assert(r@->Obj_0 =~= query_args(account_id@, fv, sv, page)->Obj_0);
    r
}

/// An `Email/query` response.
#[derive(Debug, Clone)]
pub struct EmailQueryResponse {
    pub ids: Vec<EmailId>,
    pub query_state: String,
    pub position: u64,
    pub total: Option<u64>,
}

/// Whether an `Email/query` result is well formed (members default when absent).
pub open spec fn query_ok(j: Jv) -> bool {
    j matches Jv::Obj(m) && str_list_member(m, "ids"@) is Some && str_member(m, "queryState"@) is Some
        && u64_member(m, "position"@) is Some && opt_u64_member(m, "total"@) is Some
}

impl EmailQueryResponse {
    /// Read an `Email/query` result; one of the wrong shape is a JSON error.
    pub fn from_json(j: &JsonValue) -> (r: Result<EmailQueryResponse, Error>)
        ensures
            match r {
                Ok(q) => query_ok(j@) && str_list_member(j@->Obj_0, "ids"@) == Some(id_texts(q.ids@))
                    && u64_member(j@->Obj_0, "position"@) == Some(q.position)
                    && opt_u64_member(j@->Obj_0, "total"@) == Some(q.total),
                Err(e) => !query_ok(j@) && e is Json,
            },
    {
        proof { j.lemma_view(); }
        let bad = Error::Json(text::own("malformed Email/query response"));
        let o = match j.as_object() { Some(o) => o, None => return Err(bad) };
        let ids = match read_str_list(o, "ids") { Some(v) => email_ids(v), None => return Err(bad) };
        let query_state = match read_str(o, "queryState") { Some(v) => v, None => return Err(bad) };
        let position = match read_u64(o, "position") { Some(v) => v, None => return Err(bad) };
        let total = match read_opt_u64(o, "total") { Some(v) => v, None => return Err(bad) };
        Ok(EmailQueryResponse { ids, query_state, position, total })
    }
}

/// An `Email/changes` response: the delta since a prior state.
#[derive(Debug, Clone)]
pub struct EmailChangesResponse {
    pub old_state: State,
    pub new_state: State,
    pub has_more_changes: bool,
    pub created: Vec<EmailId>,
    pub updated: Vec<EmailId>,
    pub destroyed: Vec<EmailId>,
}

/// Whether an `Email/changes` result is well formed (members default when absent).
pub open spec fn changes_ok(j: Jv) -> bool {
    j matches Jv::Obj(m) && str_member(m, "oldState"@) is Some && str_member(m, "newState"@) is Some
        && crate::json::bool_member(m, "hasMoreChanges"@) is Some && str_list_member(m, "created"@) is Some
        && str_list_member(m, "updated"@) is Some && str_list_member(m, "destroyed"@) is Some
}

impl EmailChangesResponse {
    /// Read an `Email/changes` result; one of the wrong shape is a JSON error.
    pub fn from_json(j: &JsonValue) -> (r: Result<EmailChangesResponse, Error>)
        ensures
            match r {
                Ok(c) => changes_ok(j@) && str_member(j@->Obj_0, "newState"@) == Some(c.new_state.0@)
                    && crate::json::bool_member(j@->Obj_0, "hasMoreChanges"@) == Some(c.has_more_changes)
                    && str_list_member(j@->Obj_0, "created"@) == Some(id_texts(c.created@))
                    && str_list_member(j@->Obj_0, "updated"@) == Some(id_texts(c.updated@))
                    && str_list_member(j@->Obj_0, "destroyed"@) == Some(id_texts(c.destroyed@)),
                Err(e) => !changes_ok(j@) && e is Json,
            },
    {
        proof { j.lemma_view(); }
        let bad = Error::Json(text::own("malformed Email/changes response"));
        let o = match j.as_object() { Some(o) => o, None => return Err(bad) };
        let old_state = match read_str(o, "oldState") { Some(v) => State(v), None => return Err(bad) };
        let new_state = match read_str(o, "newState") { Some(v) => State(v), None => return Err(bad) };
        let has_more_changes = match read_bool(o, "hasMoreChanges") { Some(v) => v, None => return Err(bad) };
        let created = match read_str_list(o, "created") { Some(v) => email_ids(v), None => return Err(bad) };
        let updated = match read_str_list(o, "updated") { Some(v) => email_ids(v), None => return Err(bad) };
        let destroyed = match read_str_list(o, "destroyed") { Some(v) => email_ids(v), None => return Err(bad) };
        Ok(EmailChangesResponse { old_state, new_state, has_more_changes, created, updated, destroyed })
    }
}

/// A JMAP `Email` object: its id and blob id, and every other property verbatim.
#[derive(Debug)]
pub struct Email {
    pub id: EmailId,
    pub blob_id: Option<BlobId>,
    pub rest: JsonObject,
}

/// Whether a value is a well-formed email: an object with a string id and a blob id that
/// is a string, null or absent.
pub open spec fn email_ok(j: Jv) -> bool {
    j matches Jv::Obj(m) && m.contains_key("id"@) && m["id"@] is Str && opt_str_member(m, "blobId"@) is Some
}

impl Email {
    /// Read an email; one of the wrong shape is a JSON error.
    pub fn from_json(j: &JsonValue) -> (r: Result<Email, Error>)
        ensures
            match r {
                Ok(e) => email_ok(j@) && e.id.0@ == j@->Obj_0["id"@]->Str_0
                    && (match e.blob_id {
                        Some(b) => opt_str_member(j@->Obj_0, "blobId"@) == Some(Some(b.0@)),
                        None => opt_str_member(j@->Obj_0, "blobId"@) == Some(None::<Seq<char>>),
                    })
                    && e.rest@ == j@->Obj_0.remove("id"@).remove("blobId"@),
                Err(e) => !email_ok(j@) && e is Json,
            },
    {
        proof { j.lemma_view(); }
        let bad = Error::Json(text::own("malformed Email"));
        let o = match j.as_object() { Some(o) => o, None => return Err(bad) };
        let id = match o.get("id") {
            Some(v) => match v.as_str() { Some(s) => EmailId(text::own(s)), None => return Err(bad) },
            None => return Err(bad),
        };
        let blob_id = match read_opt_str(o, "blobId") {
            Some(Some(b)) => Some(BlobId(b)),
            Some(None) => None,
            None => return Err(bad),
        };
        let mut rest = o.deep_clone();
        rest.remove("id");
        rest.remove("blobId");
        Ok(Email { id, blob_id, rest })
    }
}

/// An `Email/get` response.
#[derive(Debug)]
pub struct EmailGetResponse {
    pub list: Vec<Email>,
    pub not_found: Vec<EmailId>,
    pub state: State,
}

/// Whether an `Email/get` result is well formed (members default when absent).
pub open spec fn email_get_ok(j: Jv) -> bool {
    j matches Jv::Obj(m)
        && (!m.contains_key("list"@) || (m["list"@] matches Jv::Arr(a) && forall|i: int| 0 <= i < a.len() ==> email_ok(#[trigger] a[i])))
        && str_list_member(m, "notFound"@) is Some
        && str_member(m, "state"@) is Some
}

impl EmailGetResponse {
    /// Read an `Email/get` result; one of the wrong shape is a JSON error.
    pub fn from_json(j: &JsonValue) -> (r: Result<EmailGetResponse, Error>)
        ensures
            match r {
                Ok(g) => email_get_ok(j@) && g.list@.len() == (if j@->Obj_0.contains_key("list"@) { j@->Obj_0["list"@]->Arr_0.len() } else { 0 })
                    && (forall|i: int| 0 <= i < g.list@.len() ==> (#[trigger] g.list@[i]).id.0@ == j@->Obj_0["list"@]->Arr_0[i]->Obj_0["id"@]->Str_0
                        && (match g.list@[i].blob_id {
                            Some(b) => opt_str_member(j@->Obj_0["list"@]->Arr_0[i]->Obj_0, "blobId"@) == Some(Some(b.0@)),
                            None => opt_str_member(j@->Obj_0["list"@]->Arr_0[i]->Obj_0, "blobId"@) == Some(None::<Seq<char>>),
                        }))
                    && str_member(j@->Obj_0, "state"@) == Some(g.state.0@),
                Err(e) => !email_get_ok(j@) && e is Json,
            },
    {
        proof { j.lemma_view(); }
        let bad = Error::Json(text::own("malformed Email/get response"));
        let o = match j.as_object() { Some(o) => o, None => return Err(bad) };
        let mut list: Vec<Email> = Vec::new();
        match o.get("list") {
            None => {},
            Some(lv) => {
                let a = match lv.as_array() { Some(a) => a, None => return Err(bad) };
                let ghost av = lv@->Arr_0;
                let mut i: usize = 0;
                while i < a.len()
                    invariant
                        i <= a.len(),
                        bad is Json,
                        j@ == Jv::Obj(o@),
                        o@.contains_key("list"@) && o@["list"@] == lv@,
                        lv@ == Jv::Arr(av),
                        av.len() == a@.len(),
                        forall|k: int| 0 <= k < a@.len() ==> (#[trigger] a@[k])@ == av[k],
                        list@.len() == i,
                        forall|k: int| 0 <= k < i ==> email_ok(av[k]) && (#[trigger] list@[k]).id.0@ == av[k]->Obj_0["id"@]->Str_0
                            && (match list@[k].blob_id {
                                Some(b) => opt_str_member(av[k]->Obj_0, "blobId"@) == Some(Some(b.0@)),
                                None => opt_str_member(av[k]->Obj_0, "blobId"@) == Some(None::<Seq<char>>),
                            }),
                    decreases a.len() - i,
                {
                    assert(a@[i as int]@ == av[i as int]);
                    match Email::from_json(&a[i]) {
                        Ok(e) => list.push(e),
                        Err(_) => {
                            assert(!(forall|k: int| 0 <= k < av.len() ==> email_ok(#[trigger] av[k])));
                            assert(o@["list"@]->Arr_0 == av);
                            return Err(bad);
                        },
                    }
                    i = i + 1;
                }
                assert(j@->Obj_0["list"@]->Arr_0 == av);
                assert forall|k: int| 0 <= k < av.len() implies email_ok(#[trigger] av[k]) by {
                    let _e = list@[k];
                }
            },
        }
        let not_found = match read_str_list(o, "notFound") { Some(v) => email_ids(v), None => return Err(bad) };
        let state = match read_str(o, "state") { Some(v) => State(v), None => return Err(bad) };
        Ok(EmailGetResponse { list, not_found, state })
    }
}

/// An `Email/set` response.
pub type EmailSetResponse = SetResponse;

/// The blob id of the first email of an `Email/get` response, or the error that there
/// is none.
pub fn blob_id_of(response: EmailGetResponse, email_id: &EmailId) -> (r: Result<BlobId, Error>)
    ensures
        match (if response.list@.len() > 0 { response.list@[0].blob_id } else { None }) {
            Some(b) => r matches Ok(x) && x.0@ == b.0@,
            None => r matches Err(Error::Jmap { method, message }) && method@ == "Email/get"@
                && message@ == "no blobId for email "@ + email_id.0@,
        },
{
    let mut list = response.list;
    if list.len() > 0 {
        let first = list.remove(0);
        if let Some(b) = first.blob_id {
            return Ok(b);
        }
    }
    Err(Error::Jmap { method: text::own("Email/get"), message: text::concat("no blobId for email ", email_id.as_str()) })
}

/// The state token of an `Email/get` result, or the error that there is none.
pub fn state_of(data: &JsonValue) -> (r: Result<State, Error>)
    ensures
        match member(data@, "state"@) {
            Some(Jv::Str(s)) => r matches Ok(st) && st.0@ == s,
            _ => r matches Err(Error::Jmap { method, message }) && method@ == "Email/get"@
                && message@ == "no state token in Email/get response"@,
        },
{
    match data.get("state") {
        Some(s) => match s.as_str() {
            Some(st) => Ok(State(text::own(st))),
            None => Err(Error::jmap("Email/get", "no state token in Email/get response")),
        },
        None => Err(Error::jmap("Email/get", "no state token in Email/get response")),
    }
}

/// What reading an `Email/query` result `j` gives (see `EmailQueryResponse::from_json`).
pub open spec fn query_outcome(j: Jv, r: Result<EmailQueryResponse, Error>) -> bool {
    match r {
        Ok(q) => query_ok(j) && str_list_member(j->Obj_0, "ids"@) == Some(id_texts(q.ids@))
            && u64_member(j->Obj_0, "position"@) == Some(q.position)
            && opt_u64_member(j->Obj_0, "total"@) == Some(q.total),
        Err(e) => !query_ok(j) && e is Json,
    }
}

/// What reading an `Email/changes` result `j` gives (see `EmailChangesResponse::from_json`).
pub open spec fn changes_outcome(j: Jv, r: Result<EmailChangesResponse, Error>) -> bool {
    match r {
        Ok(c) => changes_ok(j) && str_member(j->Obj_0, "newState"@) == Some(c.new_state.0@)
            && crate::json::bool_member(j->Obj_0, "hasMoreChanges"@) == Some(c.has_more_changes)
            && str_list_member(j->Obj_0, "created"@) == Some(id_texts(c.created@))
            && str_list_member(j->Obj_0, "updated"@) == Some(id_texts(c.updated@))
            && str_list_member(j->Obj_0, "destroyed"@) == Some(id_texts(c.destroyed@)),
        Err(e) => !changes_ok(j) && e is Json,
    }
}

/// The emails listed in an `Email/get` result (none when absent).
pub open spec fn listed(j: Jv) -> Seq<Jv> {
    if j->Obj_0.contains_key("list"@) { j->Obj_0["list"@]->Arr_0 } else { Seq::empty() }
}

/// What reading an `Email/get` result `j` gives (see `EmailGetResponse::from_json`).
pub open spec fn email_get_outcome(j: Jv, r: Result<EmailGetResponse, Error>) -> bool {
    match r {
        Ok(g) => email_get_ok(j) && g.list@.len() == listed(j).len()
            && (forall|i: int| 0 <= i < g.list@.len() ==> (#[trigger] g.list@[i]).id.0@ == listed(j)[i]->Obj_0["id"@]->Str_0
                && (match g.list@[i].blob_id {
                    Some(b) => opt_str_member(listed(j)[i]->Obj_0, "blobId"@) == Some(Some(b.0@)),
                    None => opt_str_member(listed(j)[i]->Obj_0, "blobId"@) == Some(None::<Seq<char>>),
                }))
            && str_member(j->Obj_0, "state"@) == Some(g.state.0@),
        Err(e) => !email_get_ok(j) && e is Json,
    }
}

/// What the state token of an `Email/get` result `j` gives (see `state_of`).
pub open spec fn state_outcome(j: Jv, r: Result<State, Error>) -> bool {
    match member(j, "state"@) {
        Some(Jv::Str(s)) => r matches Ok(st) && st.0@ == s,
        _ => r matches Err(Error::Jmap { method, message }) && method@ == "Email/get"@
            && message@ == "no state token in Email/get response"@,
    }
}

/// What the blob id lookup of `id` gives for an `Email/get` result `j`: the `blobId` of
/// its first email, or the error that there is none (a JSON error for a result of the
/// wrong shape).
pub open spec fn blob_outcome(j: Jv, id: Seq<char>, r: Result<BlobId, Error>) -> bool {
    if !email_get_ok(j) {
        r matches Err(e) && e is Json
    } else {
        match (if listed(j).len() > 0 { opt_str_member(listed(j)[0]->Obj_0, "blobId"@) } else { None }) {
            Some(Some(b)) => r matches Ok(x) && x.0@ == b,
            _ => r matches Err(Error::Jmap { method, message }) && method@ == "Email/get"@
                && message@ == "no blobId for email "@ + id,
        }
    }
}

/// The arguments of an `Email/changes` call.
pub open spec fn changes_args(account_id: Seq<char>, since: Seq<char>, max_changes: Option<u32>) -> Jv {
    let m = map!["accountId"@ => Jv::Str(account_id), "sinceState"@ => Jv::Str(since)];
    match max_changes {
        Some(n) => Jv::Obj(m.insert("maxChanges"@, Jv::UInt(n as u64))),
        None => Jv::Obj(m),
    }
}

/// The arguments of an `Email/get` call for `ids`, with `properties` when given.
pub open spec fn email_get_args(account_id: Seq<char>, ids: Seq<Seq<char>>, properties: Option<Seq<Seq<char>>>) -> Jv {
    let m = map!["accountId"@ => Jv::Str(account_id), "ids"@ => crate::actions::email::str_arr(ids)];
    match properties {
        Some(p) => Jv::Obj(m.insert("properties"@, crate::actions::email::str_arr(p))),
        None => Jv::Obj(m),
    }
}

impl JmapClient {
    /// A single `Email/query` call for one window of results.
    pub fn email_query<T: HttpTransport>(&self, t: &mut Exchange<T>, account_id: &str, filter: JsonValue, sort: JsonValue, page: Page) -> (r: Result<EmailQueryResponse, Error>)
        ensures
            single_sent(*self, old(t).log(), final(t).log(), "urn:ietf:params:jmap:mail"@, "Email/query"@,
                query_args(account_id@, filter@, sort@, page)),
            match single_ok("Email/query"@, last_reply(final(t).log())) {
                Some(j) => query_outcome(j, r),
                None => (r matches Err(e) && single_failed("Email/query"@, last_reply(final(t).log()), e)),
            },
    {
        let args = query_args_of(account_id, filter, sort, page);
        match self.call_one(t, "urn:ietf:params:jmap:mail", "Email/query", args) {
            Ok(data) => EmailQueryResponse::from_json(&data),
            Err(e) => Err(e),
        }
    }

    /// A single `Email/changes` call for the delta since `since`; a state too old to
    /// calculate from surfaces as the server's error.
    pub fn email_changes<T: HttpTransport>(&self, t: &mut Exchange<T>, account_id: &str, since: &State, max_changes: Option<u32>) -> (r: Result<EmailChangesResponse, Error>)
        ensures
            single_sent(*self, old(t).log(), final(t).log(), "urn:ietf:params:jmap:mail"@, "Email/changes"@,
                changes_args(account_id@, since.0@, max_changes)),
            match single_ok("Email/changes"@, last_reply(final(t).log())) {
                Some(j) => changes_outcome(j, r),
                None => (r matches Err(e) && single_failed("Email/changes"@, last_reply(final(t).log()), e)),
            },
    {
        let mut o = JsonObject::new()
            .with("accountId", JsonValue::string(account_id))
            .with("sinceState", JsonValue::string(since.as_str()));
        assert(o@ =~= map!["accountId"@ => Jv::Str(account_id@), "sinceState"@ => Jv::Str(since.0@)]);
        if let Some(max) = max_changes {
            proof { JsonValue::UInt(max as u64).lemma_view(); }
            o.insert(text::own("maxChanges"), JsonValue::UInt(max as u64));
        }
        let args = JsonValue::object(o);
        assert(args@ =~= changes_args(account_id@, since.0@, max_changes));
        match self.call_one(t, "urn:ietf:params:jmap:mail", "Email/changes", args) {
            Ok(data) => EmailChangesResponse::from_json(&data),
            Err(e) => Err(e),
        }
    }

    /// An `Email/get` for a set of ids, every property kept; `properties` selects which
    /// properties to fetch (`None`: the server's default set).
    pub fn email_get<T: HttpTransport>(&self, t: &mut Exchange<T>, account_id: &str, ids: &[EmailId], properties: Option<&[&str]>) -> (r: Result<EmailGetResponse, Error>)
        ensures
            single_sent(*self, old(t).log(), final(t).log(), "urn:ietf:params:jmap:mail"@, "Email/get"@,
                email_get_args(account_id@, id_texts(ids@), match properties {
                    Some(p) => Some(crate::actions::field_texts(p@)),
                    None => None,
                })),
            match single_ok("Email/get"@, last_reply(final(t).log())) {
                Some(j) => email_get_outcome(j, r),
                None => (r matches Err(e) && single_failed("Email/get"@, last_reply(final(t).log()), e)),
            },
    {
        let id_strs = id_strings(ids);
        let mut o = JsonObject::new()
            .with("accountId", JsonValue::string(account_id))
            .with("ids", crate::json::string_array(&id_strs));
        assert(o@ =~= map!["accountId"@ => Jv::Str(account_id@), "ids"@ => crate::actions::email::str_arr(id_texts(ids@))]);
        if let Some(props) = properties {
            o.insert(text::own("properties"), crate::actions::email::str_array(props));
        }
        let args = JsonValue::object(o);
        assert(args@ =~= email_get_args(account_id@, id_texts(ids@), match properties {
            Some(p) => Some(crate::actions::field_texts(p@)),
            None => None,
        }));
        match self.call_one(t, "urn:ietf:params:jmap:mail", "Email/get", args) {
            Ok(data) => EmailGetResponse::from_json(&data),
            Err(e) => Err(e),
        }
    }

    /// The blob id of an email's raw RFC822 content: an `Email/get` of it for `blobId`
    /// alone, then the first email's blob id (see `blob_outcome`).
    pub fn email_blob_id<T: HttpTransport>(&self, t: &mut Exchange<T>, account_id: &str, email_id: &EmailId) -> (r: Result<BlobId, Error>)
        ensures
            single_sent(*self, old(t).log(), final(t).log(), "urn:ietf:params:jmap:mail"@, "Email/get"@,
                email_get_args(account_id@, seq![email_id.0@], Some(seq!["blobId"@]))),
            match single_ok("Email/get"@, last_reply(final(t).log())) {
                Some(j) => blob_outcome(j, email_id.0@, r),
                None => (r matches Err(e) && single_failed("Email/get"@, last_reply(final(t).log()), e)),
            },
    {
        let ids = vec![email_id.clone()];
        let props: [&str; 1] = ["blobId"];
        proof {
            assert(id_texts(ids@) =~= seq![email_id.0@]);
            assert(crate::actions::field_texts(props@) =~= seq!["blobId"@]);
        }
        let response = match self.email_get(t, account_id, ids.as_slice(), Some(props.as_slice())) {
            Ok(g) => g,
            Err(e) => return Err(e),
        };
        blob_id_of(response, email_id)
    }

    /// The current account-wide `Email` state token, for bootstrapping incremental sync:
    /// an `Email/get` with no ids returns it.
    pub fn email_state<T: HttpTransport>(&self, t: &mut Exchange<T>, account_id: &str) -> (r: Result<State, Error>)
        ensures
            single_sent(*self, old(t).log(), final(t).log(), "urn:ietf:params:jmap:mail"@, "Email/get"@,
                email_get_args(account_id@, Seq::empty(), None)),
            match single_ok("Email/get"@, last_reply(final(t).log())) {
                Some(j) => state_outcome(j, r),
                None => (r matches Err(e) && single_failed("Email/get"@, last_reply(final(t).log()), e)),
            },
    {
        let empty: Vec<JsonValue> = Vec::new();
        assert(crate::json::views(empty@) =~= Seq::<Jv>::empty());
        let none = JsonValue::array(empty);
        assert(none@ == crate::actions::email::str_arr(Seq::empty())) by {
            assert(crate::actions::email::str_arr(Seq::empty())->Arr_0 =~= Seq::<Jv>::empty());
        }
        let o = JsonObject::new()
            .with("accountId", JsonValue::string(account_id))
            .with("ids", none);
        let args = JsonValue::object(o);
        assert(args@ =~= email_get_args(account_id@, Seq::empty(), None));
        match self.call_one(t, "urn:ietf:params:jmap:mail", "Email/get", args) {
            Ok(data) => state_of(&data),
            Err(e) => Err(e),
        }
    }

    /// A single `Email/set`: create, update and/or destroy in one call.
    pub fn email_set<T: HttpTransport>(&self, t: &mut Exchange<T>, account_id: &str, create: Option<JsonValue>, update: Option<JsonValue>, destroy: &[EmailId]) -> (r: Result<EmailSetResponse, Error>)
        ensures
            single_sent(*self, old(t).log(), final(t).log(), "urn:ietf:params:jmap:mail"@, "Email/set"@,
                crate::jmap::set_args(account_id@, crate::jmap::opt_jv(create), crate::jmap::opt_jv(update), id_texts(destroy@))),
            match single_ok("Email/set"@, last_reply(final(t).log())) {
                Some(j) => crate::jmap::set_outcome(j, r),
                None => (r matches Err(e) && single_failed("Email/set"@, last_reply(final(t).log()), e)),
            },
    {
        let ids = id_strings(destroy);
        let args = set_args_of(account_id, create, update, &ids);
        match self.call_one(t, "urn:ietf:params:jmap:mail", "Email/set", args) {
            Ok(data) => SetResponse::from_json(&data),
            Err(e) => Err(e),
        }
    }
}

/// The order an enumeration walks: `receivedAt` ascending, then id ascending, which never
/// changes under concurrent inserts, so windows never skip.
pub open spec fn enumeration_sort() -> Jv {
    Jv::Arr(seq![
        Jv::Obj(map!["property"@ => Jv::Str("receivedAt"@), "isAscending"@ => Jv::Bool(true)]),
        Jv::Obj(map!["property"@ => Jv::Str("id"@), "isAscending"@ => Jv::Bool(true)])
    ])
}

/// Walks every id matching a filter, one `Email/query` window at a time, anchoring each
/// window on the last id of the one before. An id seen in an earlier window is not
/// yielded again.
pub struct EmailEnumerator<'a> {
    client: &'a JmapClient,
    account_id: String,
    filter: JsonValue,
    sort: JsonValue,
    page_size: u32,
    /// Every id seen so far, in order of first sight; those before `head` were yielded.
    seen: Vec<EmailId>,
    head: usize,
    anchor: Option<EmailId>,
    done: bool,
}

/// The ids a window's `Email/query` exchange with reply `reply` brings, when it gives a
/// result of the right shape.
pub open spec fn window_ids(reply: Result<Jv, Error>) -> Option<Seq<Seq<char>>> {
    match single_ok("Email/query"@, reply) {
        Some(j) => if query_ok(j) { str_list_member(j->Obj_0, "ids"@) } else { None },
        None => None,
    }
}

/// Whether `e` is the error a window's `Email/query` exchange with reply `reply` ends in:
/// the exchange's own (see `single_failed`), or a JSON error for a result of the wrong
/// shape.
pub open spec fn window_failed(reply: Result<Jv, Error>, e: Error) -> bool {
    match single_ok("Email/query"@, reply) {
        Some(j) => !query_ok(j) && e is Json,
        None => single_failed("Email/query"@, reply, e),
    }
}

/// `known` followed by those of `ids` not yet in it, in order, each once.
pub open spec fn absorb(known: Seq<Seq<char>>, ids: Seq<Seq<char>>) -> Seq<Seq<char>>
    decreases ids.len(),
{
    if ids.len() == 0 {
        known
    } else {
        let before = absorb(known, ids.drop_last());
        if before.contains(ids.last()) { before } else { before.push(ids.last()) }
    }
}

/// Appending an element not present keeps a sequence free of duplicates.
proof fn lemma_push_distinct(s: Seq<Seq<char>>, x: Seq<char>)
    requires
        s.no_duplicates(),
        !s.contains(x),
    ensures
        s.push(x).no_duplicates(),
{
    let t = s.push(x);
    assert forall|i: int, j: int| 0 <= i < t.len() && 0 <= j < t.len() && i != j implies t[i] != t[j] by {
        if i == s.len() as int {
            assert(s[j] == t[j]);
        } else if j == s.len() as int {
            assert(s[i] == t[i]);
        }
    }
}

/// Stitching a window onto the walk: the ids seen before stay first and in order, the
/// window's ids are all seen afterwards, nothing else is added, and no id is seen twice,
/// however the windows overlap.
pub proof fn law_absorb(known: Seq<Seq<char>>, ids: Seq<Seq<char>>)
    requires
        known.no_duplicates(),
    ensures
        absorb(known, ids).no_duplicates(),
        absorb(known, ids).len() >= known.len(),
        absorb(known, ids).take(known.len() as int) == known,
        forall|x: Seq<char>| #[trigger] absorb(known, ids).contains(x) <==> (known.contains(x) || ids.contains(x)),
    decreases ids.len(),
{
    if ids.len() > 0 {
        let init = ids.drop_last();
        let x = ids.last();
        law_absorb(known, init);
        let before = absorb(known, init);
        if !before.contains(x) {
            lemma_push_distinct(before, x);
            assert(before.push(x).take(known.len() as int) =~= before.take(known.len() as int));
        }
        let after = absorb(known, ids);
        assert forall|y: Seq<char>| #[trigger] after.contains(y) <==> (known.contains(y) || ids.contains(y)) by {
            if ids.contains(y) && !init.contains(y) {
                let j = choose|j: int| 0 <= j < ids.len() && ids[j] == y;
                if j < ids.len() - 1 {
                    assert(init[j] == y);
                }
                if !before.contains(x) {
                    assert(after[after.len() - 1] == x);
                }
            }
            if init.contains(y) {
                let j = choose|j: int| 0 <= j < init.len() && init[j] == y;
                assert(ids[j] == y);
            }
            if after.contains(y) && !before.contains(y) {
                assert(y == x);
                assert(ids[ids.len() - 1] == y);
            }
            if before.contains(y) && !before.contains(x) {
                let j = choose|j: int| 0 <= j < before.len() && before[j] == y;
                assert(after[j] == y);
            }
        }
    }
}

impl<'a> EmailEnumerator<'a> {
    /// The ids yielded so far, in order.
    pub closed spec fn yielded(&self) -> Seq<Seq<char>> {
        id_texts(self.seen@).take(self.head as int)
    }

    /// The ids seen so far, in order of first sight.
    pub closed spec fn seen_view(&self) -> Seq<Seq<char>> {
        id_texts(self.seen@)
    }

    /// The order the walk requests.
    pub closed spec fn sort_view(&self) -> Jv {
        self.sort@
    }

    /// The number of ids each window asks for.
    pub closed spec fn page_size_view(&self) -> u32 {
        self.page_size
    }

    /// Whether the walk has ended.
    pub closed spec fn finished(&self) -> bool {
        self.done
    }

    /// The client the walk fetches through.
    pub closed spec fn client_view(&self) -> JmapClient {
        *self.client
    }

    /// The account, filter, order and page size of the walk's queries.
    pub closed spec fn query_view(&self) -> (Seq<char>, Jv, Jv, u32) {
        (self.account_id@, self.filter@, self.sort@, self.page_size)
    }

    /// The id the next window comes after, if any.
    pub closed spec fn anchor_text(&self) -> Option<Seq<char>> {
        match self.anchor {
            Some(a) => Some(a.0@),
            None => None,
        }
    }

    /// The arguments of a window's `Email/query`: the walk's account, filter and order,
    /// from the start (position 0) or just after `anchor` (offset 1), one page in size.
    pub closed spec fn args_after(&self, anchor: Option<Seq<char>>) -> Jv {
        match anchor {
            None => query_args(self.account_id@, self.filter@, self.sort@, Page::Position { position: 0, limit: self.page_size }),
            Some(a) => Jv::Obj(map![
                "accountId"@ => Jv::Str(self.account_id@),
                "filter"@ => self.filter@,
                "sort"@ => self.sort@,
                "anchor"@ => Jv::Str(a),
                "anchorOffset"@ => Jv::UInt(1),
                "limit"@ => Jv::UInt(self.page_size as u64)
            ]),
        }
    }

    /// The arguments of the next window's `Email/query` (see `args_after`).
    pub open spec fn window_args(&self) -> Jv {
        self.args_after(self.anchor_text())
    }

    /// The enumerator's invariant: the ids seen are distinct, and the yielded ones are
    /// the first of them.
    pub closed spec fn wf(&self) -> bool {
        &&& self.head <= self.seen@.len()
        &&& id_texts(self.seen@).no_duplicates()
    }

    /// An enumerator of the emails of `account_id` matching `filter`, `page_size` per
    /// window.
    pub fn new(client: &'a JmapClient, account_id: String, filter: JsonValue, page_size: u32) -> (r: EmailEnumerator<'a>)
        ensures
            r.wf(),
            r.yielded() == Seq::<Seq<char>>::empty(),
            r.seen_view() == Seq::<Seq<char>>::empty(),
            !r.finished(),
            r.sort_view() == enumeration_sort(),
    {
        proof { JsonValue::Bool(true).lemma_view(); }
        let a = JsonValue::object(JsonObject::new().with("property", JsonValue::string("receivedAt")).with("isAscending", JsonValue::Bool(true)));
        let b = JsonValue::object(JsonObject::new().with("property", JsonValue::string("id")).with("isAscending", JsonValue::Bool(true)));
        assert(a@->Obj_0 =~= map!["property"@ => Jv::Str("receivedAt"@), "isAscending"@ => Jv::Bool(true)]);
        assert(b@->Obj_0 =~= map!["property"@ => Jv::Str("id"@), "isAscending"@ => Jv::Bool(true)]);
        let v = vec![a, b];
        let sort = JsonValue::array(v);
        assert(crate::json::views(v@) =~= enumeration_sort()->Arr_0);
        let r = EmailEnumerator {
            client,
            account_id,
            filter,
            sort,
            page_size,
            seen: Vec::new(),
            head: 0,
            anchor: None,
            done: false,
        };
        assert(id_texts(r.seen@) =~= Seq::<Seq<char>>::empty());
        r
    }

    /// Whether `id` was seen already.
    fn is_seen(&self, id: &EmailId) -> (r: bool)
        ensures
            r == id_texts(self.seen@).contains(id.0@),
    {
        let mut i: usize = 0;
        while i < self.seen.len()
            invariant
                i <= self.seen@.len(),
                forall|j: int| 0 <= j < i ==> self.seen@[j].0@ != id.0@,
            decreases self.seen.len() - i,
        {
            if text::str_eq(self.seen[i].as_str(), id.as_str()) {
                assert(id_texts(self.seen@)[i as int] == id.0@);
                return true;
            }
            i = i + 1;
        }
        proof {
            if id_texts(self.seen@).contains(id.0@) {
                let j = choose|j: int| 0 <= j < id_texts(self.seen@).len() && id_texts(self.seen@)[j] == id.0@;
                assert(self.seen@[j].0@ == id.0@);
            }
        }
        false
    }

    /// Take in one window: ids not seen before join the walk in order, the last id
    /// becomes the next anchor, and a window shorter than the page size ends the walk.
    pub fn absorb_window(&mut self, ids: Vec<EmailId>)
        requires
            old(self).wf(),
        ensures
            final(self).wf(),
            final(self).seen_view() == absorb(old(self).seen_view(), id_texts(ids@)),
            final(self).yielded() == old(self).yielded(),
            final(self).finished() == (old(self).finished() || ids@.len() < old(self).page_size_view()),
            final(self).page_size_view() == old(self).page_size_view(),
            final(self).client_view() == old(self).client_view(),
            final(self).query_view() == old(self).query_view(),
            final(self).anchor_text() == (if ids@.len() > 0 { Some(id_texts(ids@).last()) } else { old(self).anchor_text() }),
    {
        let ghost known = self.seen_view();
        let ghost iv = id_texts(ids@);
        let n = ids.len();
        if n > 0 {
            self.anchor = Some(ids[n - 1].clone());
        }
        let mut i: usize = 0;
        assert(iv.take(0) =~= Seq::<Seq<char>>::empty());
        while i < n
            invariant
                n == ids@.len(),
                iv == id_texts(ids@),
                i <= n,
                self.wf(),
                self.head == old(self).head,
                self.head <= old(self).seen@.len(),
                self.page_size == old(self).page_size,
                self.client_view() == old(self).client_view(),
                self.query_view() == old(self).query_view(),
                self.anchor_text() == (if n > 0 { Some(id_texts(ids@).last()) } else { old(self).anchor_text() }),
                self.done == old(self).done,
                known == id_texts(old(self).seen@),
                self.seen_view() == absorb(known, iv.take(i as int)),
                self.seen_view().take(self.head as int) == known.take(self.head as int),
            decreases n - i,
        {
            let id = &ids[i];
            proof {
                assert(iv.take(i as int + 1).drop_last() =~= iv.take(i as int));
                assert(iv.take(i as int + 1).last() == id.0@);
            }
            if !self.is_seen(id) {
                let ghost before = self.seen_view();
                proof { lemma_push_distinct(before, id.0@); }
                self.seen.push(id.clone());
                assert(self.seen_view() =~= before.push(id.0@));
                assert(self.seen_view().take(self.head as int) =~= before.take(self.head as int));
            }
            i = i + 1;
        }
        assert(iv.take(n as int) =~= iv);
        if (n as u64) < (self.page_size as u64) {
            self.done = true;
        }
    }

    /// Fetch and take in the next window: one `Email/query` exchange. When it gives a
    /// result, its ids are taken in (see `absorb_window`); otherwise nothing changes and
    /// its error is returned.
    fn fetch_window<T: HttpTransport>(&mut self, t: &mut Exchange<T>) -> (r: Result<(), Error>)
        requires
            old(self).wf(),
        ensures
            final(self).wf(),
            final(self).yielded() == old(self).yielded(),
            final(self).page_size_view() == old(self).page_size_view(),
            final(self).client_view() == old(self).client_view(),
            final(self).query_view() == old(self).query_view(),
            single_sent(old(self).client_view(), old(t).log(), final(t).log(), "urn:ietf:params:jmap:mail"@,
                "Email/query"@, old(self).window_args()),
            match r {
                Ok(_) => window_ids(last_reply(final(t).log())) matches Some(ids)
                    && final(self).seen_view() == absorb(old(self).seen_view(), ids)
                    && final(self).finished() == (old(self).finished() || ids.len() < old(self).page_size_view())
                    && final(self).anchor_text() == (if ids.len() > 0 { Some(ids.last()) } else { old(self).anchor_text() }),
                Err(e) => window_ids(last_reply(final(t).log())) is None && window_failed(last_reply(final(t).log()), e)
                    && final(self).seen_view() == old(self).seen_view() && final(self).finished() == old(self).finished(),
            },
    {
        let page = match &self.anchor {
            None => Page::Position { position: 0, limit: self.page_size },
            Some(a) => Page::Anchor { anchor: a.clone(), anchor_offset: 1, limit: self.page_size },
        };
        proof {
            if self.anchor is Some {
                assert(query_args(self.account_id@, self.filter@, self.sort@, page) =~= self.window_args());
            }
        }
        let response = match self.client.email_query(t, self.account_id.as_str(), self.filter.deep_clone(), self.sort.deep_clone(), page) {
            Ok(q) => q,
            Err(e) => return Err(e),
        };
        self.absorb_window(response.ids);
        Ok(())
    }

    /// Whether the windows from exchange `k` of `log` on are those a call of `next`
    /// fetches when the walk has seen `seen` and its next window comes after `anchor`, the
    /// call ending as `r` and leaving the walk `fin`. Each is an `Email/query` for the
    /// window after the anchor (see `args_after`), posted to the walk's client. A window
    /// that fails ends the call with its error and ends the walk; one that brings an id
    /// not seen before ends the call with the first such id; a window shorter than a page
    /// that brings none ends the walk with `None`; a full window that brings none is
    /// followed by the window after its last id.
    pub open spec fn windows_from(
        self,
        seen: Seq<Seq<char>>,
        anchor: Option<Seq<char>>,
        log: Seq<Exchanged>,
        k: int,
        fin: Self,
        r: Option<Result<EmailId, Error>>,
    ) -> bool
        decreases log.len() - k,
    {
        if 0 <= k < log.len() {
            let upto = log.take(k + 1);
            &&& posted(upto, self.client_view().api_url_view(), self.client_view().token_view(),
                single_request("urn:ietf:params:jmap:mail"@, "Email/query"@, self.args_after(anchor)))
            &&& match window_ids(last_reply(upto)) {
                None => k + 1 == log.len() && fin.finished() && fin.seen_view() == seen
                    && (r matches Some(Err(e)) && window_failed(last_reply(upto), e)),
                Some(ids) => {
                    let s1 = absorb(seen, ids);
                    if s1.len() > seen.len() {
                        k + 1 == log.len() && fin.seen_view() == s1
                            && (r matches Some(Ok(id)) && id.0@ == s1[seen.len() as int])
                    } else if ids.len() < self.page_size_view() {
                        k + 1 == log.len() && fin.seen_view() == s1 && r is None
                    } else {
                        self.windows_from(s1, if ids.len() > 0 { Some(ids.last()) } else { anchor }, log, k + 1, fin, r)
                    }
                },
            }
        } else {
            false
        }
    }

    /// Whether the exchanges from `k` of `log` to its end are full windows that bring no
    /// new id, fetched from `anchor` on while the walk has seen `seen`, the last of them
    /// leaving the next window after `anchor_end`.
    spec fn windows_pass(self, seen: Seq<Seq<char>>, anchor: Option<Seq<char>>, log: Seq<Exchanged>, k: int, anchor_end: Option<Seq<char>>) -> bool
        decreases log.len() - k,
    {
        if 0 <= k < log.len() {
            let upto = log.take(k + 1);
            &&& posted(upto, self.client_view().api_url_view(), self.client_view().token_view(),
                single_request("urn:ietf:params:jmap:mail"@, "Email/query"@, self.args_after(anchor)))
            &&& window_ids(last_reply(upto)) matches Some(ids)
            &&& absorb(seen, ids).len() == seen.len()
            &&& ids.len() >= self.page_size_view()
            &&& self.windows_pass(seen, if ids.len() > 0 { Some(ids.last()) } else { anchor }, log, k + 1, anchor_end)
        } else {
            k == log.len() && anchor == anchor_end
        }
    }

    /// A window that brings no id beyond `seen` leaves it as it was.
    proof fn lemma_absorb_nothing_new(seen: Seq<Seq<char>>, ids: Seq<Seq<char>>)
        requires
            seen.no_duplicates(),
            absorb(seen, ids).len() == seen.len(),
        ensures
            absorb(seen, ids) == seen,
    {
        law_absorb(seen, ids);
        assert(absorb(seen, ids) =~= absorb(seen, ids).take(seen.len() as int));
    }

    /// Passing windows up to the end of `log`, then the windows of a longer log from
    /// there, make the windows of that log from `k`.
    proof fn lemma_windows_close(
        self,
        seen: Seq<Seq<char>>,
        anchor: Option<Seq<char>>,
        log: Seq<Exchanged>,
        k: int,
        anchor_end: Option<Seq<char>>,
        log2: Seq<Exchanged>,
        fin: Self,
        r: Option<Result<EmailId, Error>>,
    )
        requires
            seen.no_duplicates(),
            0 <= k <= log.len(),
            self.windows_pass(seen, anchor, log, k, anchor_end),
            log.len() < log2.len(),
            log2.take(log.len() as int) == log,
            self.windows_from(seen, anchor_end, log2, log.len() as int, fin, r),
        ensures
            self.windows_from(seen, anchor, log2, k, fin, r),
        decreases log.len() - k,
    {
        if k < log.len() {
            assert(log2.take(k + 1) =~= log.take(k + 1));
            let ids = window_ids(last_reply(log.take(k + 1)))->0;
            EmailEnumerator::lemma_absorb_nothing_new(seen, ids);
            self.lemma_windows_close(seen, if ids.len() > 0 { Some(ids.last()) } else { anchor }, log, k + 1, anchor_end, log2, fin, r);
        }
    }

    /// Passing windows up to the end of `log`, and one more passing window at the end of
    /// `log2`, make passing windows up to the end of `log2`.
    proof fn lemma_windows_pass_step(
        self,
        seen: Seq<Seq<char>>,
        anchor: Option<Seq<char>>,
        log: Seq<Exchanged>,
        k: int,
        anchor_end: Option<Seq<char>>,
        log2: Seq<Exchanged>,
        anchor_next: Option<Seq<char>>,
    )
        requires
            0 <= k <= log.len(),
            self.windows_pass(seen, anchor, log, k, anchor_end),
            log2.len() == log.len() + 1,
            log2.take(log.len() as int) == log,
            self.windows_pass(seen, anchor_end, log2, log.len() as int, anchor_next),
        ensures
            self.windows_pass(seen, anchor, log2, k, anchor_next),
        decreases log.len() - k,
    {
        if k < log.len() {
            assert(log2.take(k + 1) =~= log.take(k + 1));
            let ids = window_ids(last_reply(log.take(k + 1)))->0;
            self.lemma_windows_pass_step(seen, if ids.len() > 0 { Some(ids.last()) } else { anchor }, log, k + 1, anchor_end, log2, anchor_next);
        }
    }

    /// The next id of the walk, fetching windows as needed; `None` once the walk has
    /// ended. A failed fetch is returned once and ends the walk. An id is never yielded
    /// twice. Once every id seen has been yielded, windows are fetched one after another
    /// (see `windows_from`) until one fails, brings a new id, or ends the walk; after
    /// `u64::MAX` full windows of ids already seen, the walk gives up and ends.
    pub fn next<T: HttpTransport>(&mut self, t: &mut Exchange<T>) -> (r: Option<Result<EmailId, Error>>)
        requires
            old(self).wf(),
        ensures
            final(self).wf(),
            match r {
                Some(Ok(id)) => final(self).yielded() == old(self).yielded().push(id.0@)
                    && !old(self).yielded().contains(id.0@),
                _ => final(self).yielded() == old(self).yielded(),
            },
            old(self).yielded().len() < old(self).seen_view().len() ==> (r matches Some(Ok(id))
                && id.0@ == old(self).seen_view()[old(self).yielded().len() as int]
                && final(self).seen_view() == old(self).seen_view() && final(self).finished() == old(self).finished()
                && final(t).log() == old(t).log()),
            old(self).yielded().len() == old(self).seen_view().len() && old(self).finished() ==> (r is None
                && final(self).seen_view() == old(self).seen_view() && final(self).finished()
                && final(t).log() == old(t).log()),
            old(self).yielded().len() == old(self).seen_view().len() && !old(self).finished() ==> (
                final(t).log().len() > old(t).log().len()
                && final(t).log().take(old(t).log().len() as int) == old(t).log()
                && (old(self).windows_from(old(self).seen_view(), old(self).anchor_text(), final(t).log(),
                    old(t).log().len() as int, *final(self), r)
                    || (r is None && final(t).log().len() == old(t).log().len() + u64::MAX))),
            r is None ==> final(self).finished() && final(self).yielded().len() == final(self).seen_view().len(),
            r matches Some(Err(_)) ==> final(self).finished() && final(self).yielded().len() == final(self).seen_view().len(),
    {
        let ghost e0 = *self;
        proof { EmailEnumerator::lemma_yielded_len(self); }
        if self.head < self.seen.len() {
            return Some(Ok(self.take_buffered()));
        }
        if self.done {
            return None;
        }
        let ghost n: int = t.log().len() as int;
        let ghost s0 = self.seen_view();
        let ghost a0 = self.anchor_text();
        let mut fuel: u64 = u64::MAX;
        assert(t.log().take(n) =~= t.log());
        loop
            invariant
                self.wf(),
                e0 == *old(self),
                e0.wf(),
                self.yielded() == e0.yielded(),
                self.head == e0.head,
                self.head == self.seen@.len(),
                self.seen_view() == s0,
                s0 == e0.seen_view(),
                s0.no_duplicates(),
                a0 == e0.anchor_text(),
                !self.done,
                !e0.done,
                e0.head == e0.seen@.len(),
                self.query_view() == e0.query_view(),
                self.client_view() == e0.client_view(),
                self.page_size_view() == e0.page_size_view(),
                n == old(t).log().len(),
                t.log().len() >= n,
                t.log().take(n) == old(t).log(),
                fuel as int + (t.log().len() - n) == u64::MAX,
                e0.windows_pass(s0, a0, t.log(), n, self.anchor_text()),
            decreases fuel,
        {
            if fuel == 0 {
                self.done = true;
                return None;
            }
            fuel = fuel - 1;
            let ghost prev = t.log();
            let ghost a_cur = self.anchor_text();
            match self.fetch_window(t) {
                Err(e) => {
                    self.done = true;
                    let r = Some(Err(e));
                    proof {
                        assert(t.log().take(prev.len() + 1int) =~= t.log());
                        assert(t.log().take(prev.len() as int) =~= prev);
                        assert(t.log().take(n) =~= prev.take(n));
                        e0.lemma_windows_close(s0, a0, prev, n, a_cur, t.log(), *self, r);
                        EmailEnumerator::lemma_yielded_len(self);
                    }
                    return r;
                },
                Ok(()) => {
                    proof {
                        assert(t.log().take(prev.len() + 1int) =~= t.log());
                        assert(t.log().take(prev.len() as int) =~= prev);
                        assert(t.log().take(n) =~= prev.take(n));
                        EmailEnumerator::lemma_yielded_len(self);
                    }
                    if self.head < self.seen.len() {
                        let id = self.take_buffered();
                        let r = Some(Ok(id));
                        proof { e0.lemma_windows_close(s0, a0, prev, n, a_cur, t.log(), *self, r); }
                        return r;
                    }
                    if self.done {
                        let r = None;
                        proof { e0.lemma_windows_close(s0, a0, prev, n, a_cur, t.log(), *self, r); }
                        return r;
                    }
                    proof {
                        let ids = window_ids(last_reply(t.log()))->0;
                        EmailEnumerator::lemma_absorb_nothing_new(s0, ids);
                        assert(e0.windows_pass(s0, self.anchor_text(), t.log(), prev.len() + 1int, self.anchor_text()));
                        assert(e0.windows_pass(s0, a_cur, t.log(), prev.len() as int, self.anchor_text()));
                        e0.lemma_windows_pass_step(s0, a0, prev, n, a_cur, t.log(), self.anchor_text());
                    }
                },
            }
        }
    }

    /// Yield the first id seen but not yet yielded.
    fn take_buffered(&mut self) -> (id: EmailId)
        requires
            old(self).wf(),
            old(self).head < old(self).seen@.len(),
        ensures
            final(self).wf(),
            final(self).seen@ == old(self).seen@,
            final(self).head == old(self).head + 1,
            final(self).done == old(self).done,
            final(self).anchor == old(self).anchor,
            final(self).query_view() == old(self).query_view(),
            final(self).client_view() == old(self).client_view(),
            id.0@ == old(self).seen_view()[old(self).head as int],
            final(self).yielded() == old(self).yielded().push(id.0@),
            !old(self).yielded().contains(id.0@),
    {
        let count = self.seen.len();
        assert(self.head < count);
        let id = self.seen[self.head].clone();
        proof {
            let s = id_texts(self.seen@);
            let h = self.head as int;
            assert(s.take(h + 1) =~= s.take(h).push(s[h]));
            if s.take(h).contains(s[h]) {
                let j = choose|j: int| 0 <= j < s.take(h).len() && s.take(h)[j] == s[h];
                assert(s[j] == s[h]);
            }
        }
        self.head = self.head + 1;
        id
    }

    /// The ids yielded are as many as the walk's position, no more than it has seen.
    proof fn lemma_yielded_len(e: &EmailEnumerator<'a>)
        requires
            e.wf(),
        ensures
            e.yielded().len() == e.head,
            e.seen_view().len() == e.seen@.len(),
    {
    }

    /// Every remaining id of the walk, or the first error. The walk has ended when the
    /// ids come back, every id it saw having been yielded.
    pub fn collect_ids<T: HttpTransport>(&mut self, t: &mut Exchange<T>) -> (r: Result<Vec<EmailId>, Error>)
        requires
            old(self).wf(),
        ensures
            final(self).wf(),
            r matches Ok(v) ==> id_texts(v@).no_duplicates() && final(self).yielded() == old(self).yielded() + id_texts(v@),
            r matches Ok(v) ==> final(self).finished() && final(self).yielded().len() == final(self).seen_view().len(),
            old(self).finished() ==> (r matches Ok(v)
                && id_texts(v@) == old(self).seen_view().skip(old(self).yielded().len() as int)),
    {
        let mut out: Vec<EmailId> = Vec::new();
        let ghost start = self.yielded();
        assert(id_texts(out@) =~= Seq::<Seq<char>>::empty());
        assert(start + id_texts(out@) =~= start);
        loop
            invariant
                self.wf(),
                start == old(self).yielded(),
                start + id_texts(out@) == self.yielded(),
                out@.len() <= usize::MAX,
                old(self).finished() ==> (self.finished() && self.seen_view() == old(self).seen_view()),
            ensures
                self.wf(),
                start + id_texts(out@) == self.yielded(),
                self.finished() && self.yielded().len() == self.seen_view().len(),
                old(self).finished() ==> self.seen_view() == old(self).seen_view(),
            decreases usize::MAX - out@.len(),
        {
            match self.next(t) {
                Some(Ok(id)) => {
                    proof {
                        assert(id_texts(out@.push(id)) =~= id_texts(out@).push(id.0@));
                        assert(start + id_texts(out@).push(id.0@) =~= (start + id_texts(out@)).push(id.0@));
                    }
                    out.push(id);
                    let count = out.len();
                    assert(count == out@.len());
                },
                Some(Err(e)) => return Err(e),
                None => break,
            }
        }
        let n = self.seen.len();
        proof {
            if old(self).finished() {
                let y = self.yielded();
                assert(y.len() <= self.seen_view().len());
                assert(self.seen_view().len() == n);
                assert(y.len() == self.seen_view().len());
                assert(y =~= self.seen_view());
                assert(id_texts(out@) =~= self.seen_view().skip(start.len() as int));
            }
            EmailEnumerator::lemma_yielded_distinct(self);
            let y = self.yielded();
            let o = id_texts(out@);
            assert forall|i: int, j: int| 0 <= i < o.len() && 0 <= j < o.len() && i != j implies o[i] != o[j] by {
                assert(y[start.len() + i] == o[i]);
                assert(y[start.len() + j] == o[j]);
            }
        }
        Ok(out)
    }

    /// An enumeration never yields the same id twice.
    pub proof fn lemma_yielded_distinct(e: &EmailEnumerator<'a>)
        requires
            e.wf(),
        ensures
            e.yielded().no_duplicates(),
    {
        let s = id_texts(e.seen@);
        let y = e.yielded();
        assert forall|i: int, j: int| 0 <= i < y.len() && 0 <= j < y.len() && i != j implies y[i] != y[j] by {
            assert(y[i] == s[i]);
            assert(y[j] == s[j]);
        }
    }
}

} // verus!
