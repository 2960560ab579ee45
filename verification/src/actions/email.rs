//! Email tools: list, search, read, send, move, delete and flag.

use vstd::prelude::*;

use crate::actions::{
    all_object_schemas, enum_prop, field_texts, prop, prop_names, prop_kinds, prop_docs, prop_enums, schemas_limited, one_of, unlimited, schemas_described, described, schema, schemas_declare, schemas_typed, typed, string_list_prop, tool_heads,
    check_set_errors, find_mailbox_id_by_name, find_mailbox_id_by_role, mailbox_with_name,
    mailbox_with_role, set_failure, str_member_of, Action, Context,
};
use crate::error::Error;
use crate::jmap::client::{last_reply, single_failed, one_more, posted, single_ok, single_sent, Exchange, Exchanged, HttpTransport, JmapClient};
use crate::jmap::types::{back_reference, back_reference_json, JmapResponse, MethodCall};
use crate::json::{member, views, JsonObject, JsonValue, Jv};
use crate::mcp::types::Tool;
use crate::present::{display_email, display_list, email_body_properties, email_list_properties, extract_body_content, body_props, list_props};
use crate::text;

verus! {

// ---------------------------------------------------------------------------------------
// Shared pieces

/// The arguments of the first response named `name`, if any.
pub open spec fn first_named(rs: Seq<(Seq<char>, Jv, Seq<char>)>, name: Seq<char>) -> Option<Jv>
    decreases rs.len(),
{
    if rs.len() == 0 {
        None
    } else if rs[0].0 == name {
        Some(rs[0].1)
    } else {
        first_named(rs.drop_first(), name)
    }
}

/// The arguments of the first response named `name`.
pub fn find_response<'a>(resp: &'a JmapResponse, name: &str) -> (r: Option<&'a JsonValue>)
    ensures
        match r {
            Some(v) => first_named(resp.responses_view(), name@) == Some(v@),
            None => first_named(resp.responses_view(), name@) is None,
        },
{
    let ghost rs = resp.responses_view();
    let mut i: usize = 0;
    assert(rs.subrange(0, rs.len() as int) == rs);
    while i < resp.method_responses.len()
        invariant
            i <= resp.method_responses@.len(),
            rs == resp.responses_view(),
            rs.len() == resp.method_responses@.len(),
            first_named(rs, name@) == first_named(rs.subrange(i as int, rs.len() as int), name@),
        decreases resp.method_responses.len() - i,
    {
        proof {
            let rest = rs.subrange(i as int, rs.len() as int);
            assert(rest.drop_first() =~= rs.subrange(i as int + 1, rs.len() as int));
        }
        if text::str_eq(resp.method_responses[i].0.as_str(), name) {
            return Some(&resp.method_responses[i].1);
        }
        i = i + 1;
    }
    None
}

/// The JSON form of a list of texts.
pub open spec fn str_arr(s: Seq<Seq<char>>) -> Jv {
    Jv::Arr(s.map_values(|x: Seq<char>| Jv::Str(x)))
}

/// A JSON array of the given texts.
pub fn str_array(items: &[&str]) -> (r: JsonValue)
    ensures
        r@ == str_arr(crate::actions::field_texts(items@)),
{
    let mut out: Vec<JsonValue> = Vec::new();
    let mut i: usize = 0;
    while i < items.len()
        invariant
            i <= items@.len(),
            out@.len() == i,
            forall|j: int| 0 <= j < i ==> (#[trigger] out@[j])@ == Jv::Str(items@[j]@),
        decreases items.len() - i,
    {
        out.push(JsonValue::string(items[i]));
        i = i + 1;
    }
    let r = JsonValue::array(out);
    assert(views(out@) =~= crate::actions::field_texts(items@).map_values(|x: Seq<char>| Jv::Str(x)));
    r
}

/// A JSON array of the given strings.
pub fn string_array_of(items: &Vec<String>) -> (r: JsonValue)
    ensures
        r@ == str_arr(crate::json::texts(items@)),
{
    let mut out: Vec<JsonValue> = Vec::new();
    let mut i: usize = 0;
    while i < items.len()
        invariant
            i <= items@.len(),
            out@.len() == i,
            forall|j: int| 0 <= j < i ==> (#[trigger] out@[j])@ == Jv::Str(items@[j]@),
        decreases items.len() - i,
    {
        out.push(JsonValue::string(items[i].as_str()));
        i = i + 1;
    }
    let r = JsonValue::array(out);
    assert(views(out@) =~= crate::json::texts(items@).map_values(|x: Seq<char>| Jv::Str(x)));
    r
}

/// The method calls as values.
pub open spec fn calls_of(v: Seq<MethodCall>) -> Seq<(Seq<char>, Jv, Seq<char>)> {
    v.map_values(|c: MethodCall| crate::jmap::types::call_view(c))
}

/// The sort order of list and search views: newest first.
pub open spec fn newest_first() -> Jv {
    Jv::Arr(seq![Jv::Obj(map!["property"@ => Jv::Str("receivedAt"@), "isAscending"@ => Jv::Bool(false)])])
}

/// The `Email/query` arguments of a list or search view.
pub open spec fn list_query_args(account_id: Seq<char>, filter: Jv, limit: u32) -> Jv {
    Jv::Obj(map![
        "accountId"@ => Jv::Str(account_id),
        "filter"@ => filter,
        "sort"@ => newest_first(),
        "limit"@ => Jv::UInt(limit as u64)
    ])
}

/// The `Email/get` arguments of a list or search view: the ids of the query's result,
/// the view's properties, and (with bodies) text and HTML body values.
pub open spec fn list_get_args(account_id: Seq<char>, include_body: bool) -> Jv {
    let base = map![
        "accountId"@ => Jv::Str(account_id),
        "#ids"@ => back_reference_json("call-0"@, "Email/query"@, "/ids"@),
        "properties"@ => str_arr(list_props(include_body))
    ];
    Jv::Obj(if include_body {
        base.insert("fetchTextBodyValues"@, Jv::Bool(true)).insert("fetchHTMLBodyValues"@, Jv::Bool(true))
    } else {
        base
    })
}

/// A list or search view asks for the newest emails first, as many as the limit, under
/// the filter given; its get fetches body values (text and HTML) exactly when bodies are
/// asked for.
pub proof fn law_list_view_args(account_id: Seq<char>, filter: Jv, limit: u32, include_body: bool)
    ensures
        list_query_args(account_id, filter, limit)->Obj_0["sort"@]
            == Jv::Arr(seq![Jv::Obj(map!["property"@ => Jv::Str("receivedAt"@), "isAscending"@ => Jv::Bool(false)])]),
        list_query_args(account_id, filter, limit)->Obj_0["filter"@] == filter,
        list_query_args(account_id, filter, limit)->Obj_0["limit"@] == Jv::UInt(limit as u64),
        list_get_args(account_id, include_body)->Obj_0.contains_key("fetchTextBodyValues"@) == include_body,
        list_get_args(account_id, include_body)->Obj_0.contains_key("fetchHTMLBodyValues"@) == include_body,
        include_body ==> list_get_args(account_id, include_body)->Obj_0["fetchTextBodyValues"@] == Jv::Bool(true)
            && list_get_args(account_id, include_body)->Obj_0["fetchHTMLBodyValues"@] == Jv::Bool(true),
{
    reveal_strlit("accountId");
    reveal_strlit("filter");
    reveal_strlit("sort");
    reveal_strlit("limit");
    reveal_strlit("#ids");
    reveal_strlit("properties");
    reveal_strlit("fetchTextBodyValues");
    reveal_strlit("fetchHTMLBodyValues");
    assert("filter"@.len() != "sort"@.len() && "filter"@.len() != "limit"@.len() && "sort"@.len() != "limit"@.len());
    assert("accountId"@.len() != "filter"@.len() && "accountId"@.len() != "sort"@.len() && "accountId"@.len() != "limit"@.len());
    assert("fetchTextBodyValues"@[5] != "fetchHTMLBodyValues"@[5]);
    assert("fetchTextBodyValues"@.len() != "accountId"@.len() && "fetchTextBodyValues"@.len() != "#ids"@.len()
        && "fetchTextBodyValues"@.len() != "properties"@.len());
}

/// The two calls of a list or search view: a query, then a get of its result.
pub open spec fn list_calls(account_id: Seq<char>, filter: Jv, limit: u32, include_body: bool) -> Seq<(Seq<char>, Jv, Seq<char>)> {
    seq![
        ("Email/query"@, list_query_args(account_id, filter, limit), "call-0"@),
        ("Email/get"@, list_get_args(account_id, include_body), "call-1"@)
    ]
}

/// The calls of a list or search view.
pub fn email_list_calls(account_id: &str, filter: JsonValue, limit: u32, include_body: bool) -> (r: Vec<MethodCall>)
    ensures
        calls_of(r@) == list_calls(account_id@, filter@, limit, include_body),
{
    proof { JsonValue::Bool(false).lemma_view(); JsonValue::UInt(limit as u64).lemma_view(); JsonValue::Bool(true).lemma_view(); }
    let sort_obj = JsonValue::object(
        JsonObject::new().with("property", JsonValue::string("receivedAt")).with("isAscending", JsonValue::Bool(false)),
    );
    assert(sort_obj@->Obj_0 =~= map!["property"@ => Jv::Str("receivedAt"@), "isAscending"@ => Jv::Bool(false)]);
    let sort = JsonValue::single(sort_obj);
    assert(sort@ == newest_first());
    let ghost fv = filter@;
    let query = JsonObject::new()
        .with("accountId", JsonValue::string(account_id))
        .with("filter", filter)
        .with("sort", sort)
        .with("limit", JsonValue::UInt(limit as u64));
    let mut get = JsonObject::new()
        .with("accountId", JsonValue::string(account_id))
        .with("#ids", back_reference("call-0", "Email/query", "/ids"))
        .with("properties", str_array(email_list_properties(include_body)));
    if include_body {
        get.insert(text::own("fetchTextBodyValues"), JsonValue::Bool(true));
        get.insert(text::own("fetchHTMLBodyValues"), JsonValue::Bool(true));
    }
    let qv = JsonValue::object(query);
    let gv = JsonValue::object(get);
    assert(qv@ =~= list_query_args(account_id@, fv, limit));
    assert(gv@ =~= list_get_args(account_id@, include_body));
    let r = vec![
        (text::own("Email/query"), qv, text::own("call-0")),
        (text::own("Email/get"), gv, text::own("call-1")),
    ];
    assert(calls_of(r@) =~= list_calls(account_id@, fv, limit, include_body));
    r
}

/// The emails a list or search response holds: the `list` of the `Email/get` response
/// (empty when there is none), each in display shape.
pub open spec fn listed_emails(rs: Seq<(Seq<char>, Jv, Seq<char>)>) -> Jv {
    display_list(match first_named(rs, "Email/get"@) {
        Some(data) => match member(data, "list"@) {
            Some(l) => l,
            None => Jv::Arr(Seq::empty()),
        },
        None => Jv::Arr(Seq::empty()),
    })
}

/// The emails a list or search response holds (see `listed_emails`).
pub fn email_list_from(resp: &JmapResponse) -> (r: JsonValue)
    ensures
        r@ == listed_emails(resp.responses_view()),
{
    let empty = JsonValue::array(Vec::new());
    assert(views(Seq::<JsonValue>::empty()) =~= Seq::<Jv>::empty());
    let list = match find_response(resp, "Email/get") {
        Some(data) => match data.get("list") {
            Some(l) => l.deep_clone(),
            None => empty,
        },
        None => empty,
    };
    crate::present::display_list_of(list)
}

/// The id of the mailbox named `name` in a `Mailbox/get` result, or the error naming it.
pub open spec fn named_mailbox(data: Jv, name: Seq<char>) -> Option<Seq<char>> {
    match member(data, "list"@) {
        Some(Jv::Arr(ms)) => mailbox_with_name(ms, name),
        _ => None,
    }
}

/// The id of the mailbox named `name` (ignoring case) in a `Mailbox/get` result.
pub fn mailbox_id_from_list(data: &JsonValue, name: &str) -> (r: Result<String, Error>)
    ensures
        match named_mailbox(data@, name@) {
            Some(id) => r matches Ok(s) && s@ == id,
            None => r matches Err(Error::InvalidParams(m)) && m@ == "mailbox not found: "@ + name@,
        },
{
    let found = match data.get("list") {
        Some(l) => match l.as_array() {
            Some(ms) => {
                assert(views(ms@) =~= l@->Arr_0);
                find_mailbox_id_by_name(ms.as_slice(), name)
            },
            None => None,
        },
        None => None,
    };
    match found {
        Some(id) => Ok(id),
        None => Err(Error::InvalidParams(text::concat("mailbox not found: ", name))),
    }
}

// ---------------------------------------------------------------------------------------
// get_emails

/// Emails of one mailbox, newest first.
pub struct GetEmails {
    pub mailbox_id: String,
    pub mailbox_name: String,
    pub limit: u32,
    pub include_body: bool,
}

/// What a listing exchange gives for its reply: the transport's error, a JSON error for a
/// document that is no JMAP response, or the listed emails in display shape.
pub open spec fn listing_reply(reply: Result<Jv, Error>, r: Result<JsonValue, Error>) -> bool {
    match reply {
        Err(e) => r matches Err(x) && x == e,
        Ok(j) => match crate::jmap::types::decode_response(j) {
            None => r matches Err(e) && e is Json,
            Some((rs, _)) => r matches Ok(v) && v@ == listed_emails(rs),
        },
    }
}

/// Whether `after` is `before` with one more exchange, the email listing calls for
/// `filter`, and `r` is what its reply gives (see `listing_reply`).
pub open spec fn email_listing(
    c: JmapClient,
    before: Seq<Exchanged>,
    after: Seq<Exchanged>,
    account_id: Seq<char>,
    filter: Jv,
    limit: u32,
    include_body: bool,
    r: Result<JsonValue, Error>,
) -> bool {
    &&& one_more(before, after)
    &&& posted(after, c.api_url_view(), c.token_view(), crate::jmap::types::request_json(
        seq!["urn:ietf:params:jmap:core"@, "urn:ietf:params:jmap:mail"@], list_calls(account_id, filter, limit, include_body)))
    &&& listing_reply(last_reply(after), r)
}

/// The filter of the emails of one mailbox.
pub open spec fn in_mailbox(mailbox_id: Seq<char>) -> Jv {
    Jv::Obj(map!["inMailbox"@ => Jv::Str(mailbox_id)])
}

/// What looking up the mailbox named `name` in a `Mailbox/get` result gives.
pub open spec fn name_outcome(j: Jv, name: Seq<char>, r: Result<String, Error>) -> bool {
    match named_mailbox(j, name) {
        Some(id) => r matches Ok(x) && x@ == id,
        None => r matches Err(Error::InvalidParams(m)) && m@ == "mailbox not found: "@ + name,
    }
}

impl GetEmails {
    /// The mailbox to list: the given id, else the mailbox with the given name.
    fn resolve_mailbox_id<T: HttpTransport>(&self, ctx: &Context, t: &mut Exchange<T>) -> (r: Result<String, Error>)
        ensures
            self.mailbox_id@.len() > 0 ==> (r matches Ok(s) && s@ == self.mailbox_id@ && final(t).log() == old(t).log()),
            self.mailbox_id@.len() == 0 && self.mailbox_name@.len() == 0
                ==> (r matches Err(Error::InvalidParams(m)) && m@ == "must provide mailboxId or mailboxName"@
                    && final(t).log() == old(t).log()),
            self.mailbox_id@.len() == 0 && self.mailbox_name@.len() > 0 ==> single_sent(ctx.jmap, old(t).log(), final(t).log(),
                "urn:ietf:params:jmap:mail"@, "Mailbox/get"@, Jv::Obj(map!["accountId"@ => Jv::Str(ctx.account_id@)])),
            self.mailbox_id@.len() == 0 && self.mailbox_name@.len() > 0 ==> match single_ok("Mailbox/get"@, last_reply(final(t).log())) {
                Some(j) => name_outcome(j, self.mailbox_name@, r),
                None => (r matches Err(e) && single_failed("Mailbox/get"@, last_reply(final(t).log()), e)),
            },
    {
        if !self.mailbox_id.as_str().is_empty() {
            return Ok(self.mailbox_id.clone());
        }
        if self.mailbox_name.as_str().is_empty() {
            return Err(Error::invalid("must provide mailboxId or mailboxName"));
        }
        let args = JsonValue::object(JsonObject::new().with("accountId", JsonValue::string(ctx.account_id.as_str())));
        assert(args@->Obj_0 =~= map!["accountId"@ => Jv::Str(ctx.account_id@)]);
        match ctx.jmap.call_one(t, "urn:ietf:params:jmap:mail", "Mailbox/get", args) {
            Ok(data) => mailbox_id_from_list(&data, self.mailbox_name.as_str()),
            Err(e) => Err(e),
        }
    }
}

impl GetEmails {
    /// What running this action does, the exchanges it makes taking the log from
    /// `before` to `after` (see `run`).
    pub open spec fn outcome(self, ctx: Context, before: Seq<Exchanged>, after: Seq<Exchanged>, r: Result<JsonValue, Error>) -> bool {
        &&& (self.mailbox_id@.len() == 0 && self.mailbox_name@.len() == 0
            ==> (r matches Err(Error::InvalidParams(m)) && m@ == "must provide mailboxId or mailboxName"@
                && after == before))
        &&& (self.mailbox_id@.len() > 0 ==> email_listing(ctx.jmap, before, after, ctx.account_id@,
            in_mailbox(self.mailbox_id@), if self.limit == 0 { 20 } else { self.limit }, self.include_body, r))
        &&& (self.mailbox_id@.len() == 0 && self.mailbox_name@.len() > 0 ==> ({
            let mid = after.take(before.len() + 1int);
            &&& after.len() >= before.len() + 1
            &&& single_sent(ctx.jmap, before, mid, "urn:ietf:params:jmap:mail"@, "Mailbox/get"@,
                Jv::Obj(map!["accountId"@ => Jv::Str(ctx.account_id@)]))
            &&& match single_ok("Mailbox/get"@, last_reply(mid)) {
                Some(j) => match named_mailbox(j, self.mailbox_name@) {
                    Some(id) => email_listing(ctx.jmap, mid, after, ctx.account_id@, in_mailbox(id),
                        if self.limit == 0 { 20 } else { self.limit }, self.include_body, r),
                    None => after == mid
                        && (r matches Err(Error::InvalidParams(m)) && m@ == "mailbox not found: "@ + self.mailbox_name@),
                },
                None => after == mid && (r matches Err(e) && single_failed("Mailbox/get"@, last_reply(mid), e)),
        }
        }))
    }
}

impl Action for GetEmails {
    fn run<T: HttpTransport>(&self, ctx: &Context, t: &mut Exchange<T>) -> (r: Result<JsonValue, Error>)
        ensures
            self.outcome(*ctx, old(t).log(), final(t).log(), r),
    {
        let ghost before = t.log();
        let found = self.resolve_mailbox_id(ctx, t);
        let ghost mid = t.log();
        proof {
            if self.mailbox_id@.len() == 0 && self.mailbox_name@.len() > 0 {
                assert(mid.take(before.len() + 1int) =~= mid);
            }
        }
        let mailbox_id = match found {
            Ok(x) => x,
            Err(e) => return Err(e),
        };
        let limit = if self.limit == 0 { 20 } else { self.limit };
        let filter = JsonValue::object(JsonObject::new().with("inMailbox", JsonValue::string(mailbox_id.as_str())));
        assert(filter@ =~= in_mailbox(mailbox_id@));
        let calls = email_list_calls(ctx.account_id.as_str(), filter, limit, self.include_body);
        let using = vec![text::own("urn:ietf:params:jmap:core"), text::own("urn:ietf:params:jmap:mail")];
        proof { assert(crate::json::texts(using@) =~= seq!["urn:ietf:params:jmap:core"@, "urn:ietf:params:jmap:mail"@]); }
        let res = ctx.jmap.call(t, using, calls);
        proof {
            if self.mailbox_id@.len() == 0 && self.mailbox_name@.len() > 0 {
                assert(t.log().take(before.len() + 1int) =~= mid);
            }
        }
        match res {
            Ok(resp) => Ok(email_list_from(&resp)),
            Err(e) => Err(e),
        }
    }
}

// ---------------------------------------------------------------------------------------
// search_emails

/// Emails matching filters, newest first.
pub struct SearchEmails {
    pub keyword: String,
    pub from: String,
    pub to: String,
    pub subject: String,
    pub mailbox_id: String,
    pub has_attachment: Option<bool>,
    pub after: String,
    pub before: String,
    pub limit: u32,
    pub include_body: bool,
}

/// `m` with `k` set to the string `v` when `v` is not empty.
pub open spec fn with_text(m: Map<Seq<char>, Jv>, k: Seq<char>, v: Seq<char>) -> Map<Seq<char>, Jv> {
    if v.len() > 0 { m.insert(k, Jv::Str(v)) } else { m }
}

/// The `Email/query` filter of a search: one condition per given criterion; dates cover
/// the whole day (`after` from its start, `before` to its end).
pub open spec fn search_filter(s: SearchEmails) -> Map<Seq<char>, Jv> {
    let m1 = with_text(Map::empty(), "text"@, s.keyword@);
    let m2 = with_text(m1, "from"@, s.from@);
    let m3 = with_text(m2, "to"@, s.to@);
    let m4 = with_text(m3, "subject"@, s.subject@);
    let m5 = with_text(m4, "inMailbox"@, s.mailbox_id@);
    let m6 = match s.has_attachment {
        Some(b) => m5.insert("hasAttachment"@, Jv::Bool(b)),
        None => m5,
    };
    let m7 = if s.after@.len() > 0 { m6.insert("after"@, Jv::Str(s.after@ + "T00:00:00Z"@)) } else { m6 };
    if s.before@.len() > 0 { m7.insert("before"@, Jv::Str(s.before@ + "T23:59:59Z"@)) } else { m7 }
}

/// Each criterion of a search lands under its own key and nowhere else: the keyword under
/// `text`, the sender under `from`, the recipient under `to`, the subject under `subject`
/// and the mailbox under `inMailbox`, each exactly as given; the attachment condition
/// under `hasAttachment`; `after` from the start of its day and `before` to the end of
/// its day. Each key is present only when its criterion is given.
pub proof fn law_search_filter_criteria(s: SearchEmails)
    ensures
        search_filter(s).contains_key("text"@) == (s.keyword@.len() > 0),
        search_filter(s).contains_key("from"@) == (s.from@.len() > 0),
        search_filter(s).contains_key("to"@) == (s.to@.len() > 0),
        search_filter(s).contains_key("subject"@) == (s.subject@.len() > 0),
        search_filter(s).contains_key("inMailbox"@) == (s.mailbox_id@.len() > 0),
        s.keyword@.len() > 0 ==> search_filter(s)["text"@] == Jv::Str(s.keyword@),
        s.from@.len() > 0 ==> search_filter(s)["from"@] == Jv::Str(s.from@),
        s.to@.len() > 0 ==> search_filter(s)["to"@] == Jv::Str(s.to@),
        s.subject@.len() > 0 ==> search_filter(s)["subject"@] == Jv::Str(s.subject@),
        s.mailbox_id@.len() > 0 ==> search_filter(s)["inMailbox"@] == Jv::Str(s.mailbox_id@),
        search_filter(s).contains_key("hasAttachment"@) == (s.has_attachment is Some),
        s.has_attachment matches Some(b) ==> search_filter(s)["hasAttachment"@] == Jv::Bool(b),
        search_filter(s).contains_key("after"@) == (s.after@.len() > 0),
        search_filter(s).contains_key("before"@) == (s.before@.len() > 0),
        s.after@.len() > 0 ==> search_filter(s)["after"@] == Jv::Str(s.after@ + "T00:00:00Z"@),
        s.before@.len() > 0 ==> search_filter(s)["before"@] == Jv::Str(s.before@ + "T23:59:59Z"@),
{
    reveal_strlit("text");
    reveal_strlit("from");
    reveal_strlit("to");
    reveal_strlit("subject");
    reveal_strlit("inMailbox");
    reveal_strlit("hasAttachment");
    reveal_strlit("after");
    reveal_strlit("before");
    assert("text"@[0] != "from"@[0]);
    assert("text"@.len() != "to"@.len() && "text"@.len() != "subject"@.len() && "text"@.len() != "inMailbox"@.len());
    assert("from"@.len() != "to"@.len() && "from"@.len() != "subject"@.len() && "from"@.len() != "inMailbox"@.len());
    assert("to"@.len() != "subject"@.len() && "to"@.len() != "inMailbox"@.len() && "subject"@.len() != "inMailbox"@.len());
    assert("text"@.len() != "hasAttachment"@.len() && "text"@.len() != "after"@.len() && "text"@.len() != "before"@.len());
    assert("from"@.len() != "hasAttachment"@.len() && "from"@.len() != "after"@.len() && "from"@.len() != "before"@.len());
    assert("to"@.len() != "hasAttachment"@.len() && "to"@.len() != "after"@.len() && "to"@.len() != "before"@.len());
    assert("subject"@.len() != "hasAttachment"@.len() && "subject"@.len() != "after"@.len() && "subject"@.len() != "before"@.len());
    assert("inMailbox"@.len() != "hasAttachment"@.len() && "inMailbox"@.len() != "after"@.len() && "inMailbox"@.len() != "before"@.len());
    assert("hasAttachment"@.len() != "after"@.len() && "hasAttachment"@.len() != "before"@.len() && "after"@.len() != "before"@.len());
}

/// Whether a search has at least one criterion.
pub open spec fn has_criterion(s: SearchEmails) -> bool {
    s.keyword@.len() > 0 || s.from@.len() > 0 || s.to@.len() > 0 || s.subject@.len() > 0
        || s.mailbox_id@.len() > 0 || s.has_attachment is Some || s.after@.len() > 0 || s.before@.len() > 0
}

/// Set `k` to the string `v` when `v` is not empty.
fn put_text(m: &mut JsonObject, k: &str, v: &str)
    ensures
        final(m)@ == with_text(old(m)@, k@, v@),
{
    if !v.is_empty() {
        m.insert(text::own(k), JsonValue::string(v));
    }
}

impl SearchEmails {
    /// The search filter (see `search_filter`); a search without criteria is refused.
    pub fn build_filter(&self) -> (r: Result<JsonValue, Error>)
        ensures
            has_criterion(*self) ==> (r matches Ok(v) && v@ == Jv::Obj(search_filter(*self))),
            !has_criterion(*self) ==> (r matches Err(Error::InvalidParams(m)) && m@ == "at least one search filter required"@),
    {
        let mut filter = JsonObject::new();
        put_text(&mut filter, "text", self.keyword.as_str());
        put_text(&mut filter, "from", self.from.as_str());
        put_text(&mut filter, "to", self.to.as_str());
        put_text(&mut filter, "subject", self.subject.as_str());
        put_text(&mut filter, "inMailbox", self.mailbox_id.as_str());
        if let Some(b) = self.has_attachment {
            proof { JsonValue::Bool(b).lemma_view(); }
            filter.insert(text::own("hasAttachment"), JsonValue::Bool(b));
        }
        if !self.after.as_str().is_empty() {
            let a = text::concat(self.after.as_str(), "T00:00:00Z");
            filter.insert(text::own("after"), JsonValue::Str(a));
            proof { JsonValue::Str(a).lemma_view(); }
        }
        if !self.before.as_str().is_empty() {
            let b = text::concat(self.before.as_str(), "T23:59:59Z");
            filter.insert(text::own("before"), JsonValue::Str(b));
            proof { JsonValue::Str(b).lemma_view(); }
        }
        assert(filter@ == search_filter(*self));
        if !(!self.keyword.as_str().is_empty() || !self.from.as_str().is_empty() || !self.to.as_str().is_empty() || !self.subject.as_str().is_empty()
            || !self.mailbox_id.as_str().is_empty() || self.has_attachment.is_some() || !self.after.as_str().is_empty()
            || !self.before.as_str().is_empty()) {
            return Err(Error::invalid("at least one search filter required"));
        }
        Ok(JsonValue::object(filter))
    }
}

impl SearchEmails {
    /// What running this action does, the exchanges it makes taking the log from
    /// `before` to `after` (see `run`).
    pub open spec fn outcome(self, ctx: Context, before: Seq<Exchanged>, after: Seq<Exchanged>, r: Result<JsonValue, Error>) -> bool {
        &&& (!has_criterion(self) ==> (r matches Err(Error::InvalidParams(m)) && m@ == "at least one search filter required"@
            && after == before))
        &&& (has_criterion(self) ==> email_listing(ctx.jmap, before, after, ctx.account_id@,
            Jv::Obj(search_filter(self)), if self.limit == 0 { 20 } else { self.limit }, self.include_body, r))
    }
}

impl Action for SearchEmails {
    fn run<T: HttpTransport>(&self, ctx: &Context, t: &mut Exchange<T>) -> (r: Result<JsonValue, Error>)
        ensures
            self.outcome(*ctx, old(t).log(), final(t).log(), r),
    {
        let filter = match self.build_filter() {
            Ok(f) => f,
            Err(e) => return Err(e),
        };
        let limit = if self.limit == 0 { 20 } else { self.limit };
        let calls = email_list_calls(ctx.account_id.as_str(), filter, limit, self.include_body);
        let using = vec![text::own("urn:ietf:params:jmap:core"), text::own("urn:ietf:params:jmap:mail")];
        proof { assert(crate::json::texts(using@) =~= seq!["urn:ietf:params:jmap:core"@, "urn:ietf:params:jmap:mail"@]); }
        match ctx.jmap.call(t, using, calls) {
            Ok(resp) => Ok(email_list_from(&resp)),
            Err(e) => Err(e),
        }
    }
}

// ---------------------------------------------------------------------------------------
// get_email_body

/// The full body of one email.
pub struct GetEmailBody {
    pub email_id: String,
    pub format: String,
}

/// The body-value flag a format asks for: `text` (also when none is given), `html`, or
/// `both`; any other format is refused.
pub open spec fn format_flag(format: Seq<char>) -> Option<Seq<char>> {
    if format.len() == 0 || format == "text"@ {
        Some("fetchTextBodyValues"@)
    } else if format == "html"@ {
        Some("fetchHTMLBodyValues"@)
    } else if format == "both"@ {
        Some("fetchAllBodyValues"@)
    } else {
        None
    }
}

/// Each body format asks for its own body values: `html` for the HTML body values, `text`
/// (or no format) for the text body values, `both` for all of them; distinct formats ask
/// for distinct values, and the arguments set the flag asked for to true.
pub proof fn law_format_flag(f: Seq<char>, account_id: Seq<char>, email_id: Seq<char>)
    ensures
        format_flag(f) is Some <==> (f.len() == 0 || f == "text"@ || f == "html"@ || f == "both"@),
        format_flag(f) matches Some(k) ==> (
            (k == "fetchHTMLBodyValues"@ <==> f == "html"@)
            && (k == "fetchAllBodyValues"@ <==> f == "both"@)
            && (k == "fetchTextBodyValues"@ <==> (f.len() == 0 || f == "text"@))),
        format_flag(f) matches Some(k) ==> (body_get_args(account_id, email_id, k)->Obj_0.contains_key(k)
            && body_get_args(account_id, email_id, k)->Obj_0[k] == Jv::Bool(true)),
{
    reveal_strlit("text");
    reveal_strlit("html");
    reveal_strlit("both");
    reveal_strlit("fetchTextBodyValues");
    reveal_strlit("fetchHTMLBodyValues");
    reveal_strlit("fetchAllBodyValues");
    assert("text"@[0] != "html"@[0] && "text"@[0] != "both"@[0] && "html"@[0] != "both"@[0]);
    assert("text"@.len() > 0 && "html"@.len() > 0 && "both"@.len() > 0);
    assert("fetchTextBodyValues"@[5] != "fetchHTMLBodyValues"@[5]);
    assert("fetchTextBodyValues"@.len() != "fetchAllBodyValues"@.len());
    assert("fetchHTMLBodyValues"@.len() != "fetchAllBodyValues"@.len());
}

/// The `Email/get` arguments of a body view.
pub open spec fn body_get_args(account_id: Seq<char>, email_id: Seq<char>, flag: Seq<char>) -> Jv {
    Jv::Obj(map![
        "accountId"@ => Jv::Str(account_id),
        "ids"@ => Jv::Arr(seq![Jv::Str(email_id)]),
        "properties"@ => str_arr(body_props()),
        flag => Jv::Bool(true)
    ])
}

/// The first email of an `Email/get` result, in display shape.
pub open spec fn first_listed(data: Jv) -> Option<Jv> {
    match member(data, "list"@) {
        Some(Jv::Arr(a)) => if a.len() > 0 { Some(display_email(a[0])) } else { None },
        _ => None,
    }
}

/// The first email of an `Email/get` result in display shape, or the not-found error.
pub fn email_from_list(data: &JsonValue, email_id: &str) -> (r: Result<JsonValue, Error>)
    ensures
        match first_listed(data@) {
            Some(e) => r matches Ok(v) && v@ == e,
            None => r matches Err(Error::InvalidParams(m)) && m@ == "email not found: "@ + email_id@,
        },
{
    let first = match data.get("list") {
        Some(l) => match l.as_array() {
            Some(a) => if a.len() > 0 { Some(a[0].deep_clone()) } else { None },
            None => None,
        },
        None => None,
    };
    match first {
        Some(e) => Ok(extract_body_content(e)),
        None => Err(Error::InvalidParams(text::concat("email not found: ", email_id))),
    }
}

impl GetEmailBody {
    /// The `Email/get` arguments of this view; `None` for an unknown format.
    pub fn get_args(&self, account_id: &str) -> (r: Option<JsonValue>)
        ensures
            match format_flag(self.format@) {
                Some(flag) => r matches Some(v) && v@ == body_get_args(account_id@, self.email_id@, flag),
                None => r is None,
            },
    {
        let f = self.format.as_str();
        let flag = if f.is_empty() || text::str_eq(f, "text") {
            "fetchTextBodyValues"
        } else if text::str_eq(f, "html") {
            "fetchHTMLBodyValues"
        } else if text::str_eq(f, "both") {
            "fetchAllBodyValues"
        } else {
            return None;
        };
        proof { JsonValue::Bool(true).lemma_view(); }
        let ids = JsonValue::single(JsonValue::string(self.email_id.as_str()));
        let o = JsonObject::new()
            .with("accountId", JsonValue::string(account_id))
            .with("ids", ids)
            .with("properties", str_array(email_body_properties()))
            .with(flag, JsonValue::Bool(true));
        let r = JsonValue::object(o);
        assert(r@ =~= body_get_args(account_id@, self.email_id@, flag@));
        Some(r)
    }
}

impl GetEmailBody {
    /// What running this action does, the exchanges it makes taking the log from
    /// `before` to `after` (see `run`).
    pub open spec fn outcome(self, ctx: Context, before: Seq<Exchanged>, after: Seq<Exchanged>, r: Result<JsonValue, Error>) -> bool {
        &&& (self.email_id@.len() == 0 ==> (r matches Err(Error::InvalidParams(m)) && m@ == "emailId is required"@
            && after == before))
        &&& (self.email_id@.len() > 0 && format_flag(self.format@) is None
            ==> (r matches Err(Error::InvalidParams(m)) && m@ == "format must be text, html, or both"@
                && after == before))
        &&& (self.email_id@.len() > 0 && format_flag(self.format@) is Some ==> single_sent(ctx.jmap, before,
            after, "urn:ietf:params:jmap:mail"@, "Email/get"@,
            body_get_args(ctx.account_id@, self.email_id@, format_flag(self.format@)->0)))
        &&& (self.email_id@.len() > 0 && format_flag(self.format@) is Some ==> match single_ok("Email/get"@, last_reply(after)) {
            Some(j) => match first_listed(j) {
                Some(e) => r matches Ok(v) && v@ == e,
                None => r matches Err(Error::InvalidParams(m)) && m@ == "email not found: "@ + self.email_id@,
        },
            None => (r matches Err(e) && single_failed("Email/get"@, last_reply(after), e)),
        })
    }
}

impl Action for GetEmailBody {
    fn run<T: HttpTransport>(&self, ctx: &Context, t: &mut Exchange<T>) -> (r: Result<JsonValue, Error>)
        ensures
            self.outcome(*ctx, old(t).log(), final(t).log(), r),
    {
        if self.email_id.as_str().is_empty() {
            return Err(Error::invalid("emailId is required"));
        }
        let args = match self.get_args(ctx.account_id.as_str()) {
            Some(a) => a,
            None => return Err(Error::invalid("format must be text, html, or both")),
        };
        match ctx.jmap.call_one(t, "urn:ietf:params:jmap:mail", "Email/get", args) {
            Ok(data) => email_from_list(&data, self.email_id.as_str()),
            Err(e) => Err(e),
        }
    }
}

// ---------------------------------------------------------------------------------------
// send_email

/// A message to compose and send.
pub struct SendEmail {
    pub to: Vec<String>,
    pub subject: String,
    pub body: String,
    pub cc: Vec<String>,
    pub bcc: Vec<String>,
    pub is_html: bool,
    pub in_reply_to: String,
}

/// The JSON form of a list of addresses.
pub open spec fn addr_list(addrs: Seq<Seq<char>>) -> Jv {
    Jv::Arr(addrs.map_values(|a: Seq<char>| Jv::Obj(map!["email"@ => Jv::Str(a)])))
}

/// The JSON form of a list of addresses.
pub fn addresses(addrs: &Vec<String>) -> (r: JsonValue)
    ensures
        r@ == addr_list(crate::json::texts(addrs@)),
{
    let mut out: Vec<JsonValue> = Vec::new();
    let mut i: usize = 0;
    while i < addrs.len()
        invariant
            i <= addrs@.len(),
            out@.len() == i,
            forall|j: int| 0 <= j < i ==> (#[trigger] out@[j])@ == Jv::Obj(map!["email"@ => Jv::Str(addrs@[j]@)]),
        decreases addrs.len() - i,
    {
        let o = JsonValue::object(JsonObject::new().with("email", JsonValue::string(addrs[i].as_str())));
        assert(o@->Obj_0 =~= map!["email"@ => Jv::Str(addrs@[i as int]@)]);
        out.push(o);
        i = i + 1;
    }
    let r = JsonValue::array(out);
    assert(views(out@) =~= crate::json::texts(addrs@).map_values(|a: Seq<char>| Jv::Obj(map!["email"@ => Jv::Str(a)])));
    r
}

/// The draft of a message from (`from_name`, `from_email`): sender, recipients, subject,
/// the `$draft` keyword, the body as a single text or HTML part, and copies when given.
pub open spec fn draft_spec(s: SendEmail, from_name: Seq<char>, from_email: Seq<char>) -> Jv {
    let part = Jv::Obj(map![
        "partId"@ => Jv::Str("body"@),
        "type"@ => Jv::Str(if s.is_html { "text/html"@ } else { "text/plain"@ })
    ]);
    let base = map![
        "from"@ => Jv::Arr(seq![Jv::Obj(map!["name"@ => Jv::Str(from_name), "email"@ => Jv::Str(from_email)])]),
        "to"@ => addr_list(crate::json::texts(s.to@)),
        "subject"@ => Jv::Str(s.subject@),
        "keywords"@ => Jv::Obj(map!["$draft"@ => Jv::Bool(true)]),
        "bodyValues"@ => Jv::Obj(map!["body"@ => Jv::Obj(map!["value"@ => Jv::Str(s.body@)])])
    ];
    let m1 = base.insert(if s.is_html { "htmlBody"@ } else { "textBody"@ }, Jv::Arr(seq![part]));
    let m2 = if s.cc@.len() > 0 { m1.insert("cc"@, addr_list(crate::json::texts(s.cc@))) } else { m1 };
    let m3 = if s.bcc@.len() > 0 { m2.insert("bcc"@, addr_list(crate::json::texts(s.bcc@))) } else { m2 };
    Jv::Obj(m3)
}

/// The draft's recipients are the ones given, each in its own place: `to` lists exactly
/// the `to` addresses, `cc` exactly the `cc` addresses and `bcc` exactly the `bcc`
/// addresses, and `cc` and `bcc` are present only when such copies are given.
pub proof fn law_draft_recipients(s: SendEmail, from_name: Seq<char>, from_email: Seq<char>)
    ensures
        draft_spec(s, from_name, from_email)->Obj_0["to"@] == addr_list(crate::json::texts(s.to@)),
        draft_spec(s, from_name, from_email)->Obj_0.contains_key("cc"@) == (s.cc@.len() > 0),
        draft_spec(s, from_name, from_email)->Obj_0.contains_key("bcc"@) == (s.bcc@.len() > 0),
        s.cc@.len() > 0 ==> draft_spec(s, from_name, from_email)->Obj_0["cc"@] == addr_list(crate::json::texts(s.cc@)),
        s.bcc@.len() > 0 ==> draft_spec(s, from_name, from_email)->Obj_0["bcc"@] == addr_list(crate::json::texts(s.bcc@)),
{
    reveal_strlit("from");
    reveal_strlit("to");
    reveal_strlit("subject");
    reveal_strlit("keywords");
    reveal_strlit("bodyValues");
    reveal_strlit("htmlBody");
    reveal_strlit("textBody");
    reveal_strlit("cc");
    reveal_strlit("bcc");
    assert("to"@[0] != "cc"@[0]);
    assert("to"@.len() != "from"@.len() && "to"@.len() != "subject"@.len() && "to"@.len() != "keywords"@.len());
    assert("to"@.len() != "bodyValues"@.len() && "to"@.len() != "htmlBody"@.len() && "to"@.len() != "textBody"@.len());
    assert("to"@.len() != "bcc"@.len() && "cc"@.len() != "bcc"@.len());
    assert("cc"@.len() != "from"@.len() && "cc"@.len() != "subject"@.len() && "cc"@.len() != "keywords"@.len());
    assert("cc"@.len() != "bodyValues"@.len() && "cc"@.len() != "htmlBody"@.len() && "cc"@.len() != "textBody"@.len());
    assert("bcc"@.len() != "from"@.len() && "bcc"@.len() != "subject"@.len() && "bcc"@.len() != "keywords"@.len());
    assert("bcc"@.len() != "bodyValues"@.len() && "bcc"@.len() != "htmlBody"@.len() && "bcc"@.len() != "textBody"@.len());
}

/// The draft is from the sending identity (`from_name`, `from_email`), has the subject
/// and body given, is marked `$draft`, and carries its body as an HTML part when the
/// message is HTML and as a plain-text part otherwise, never both.
pub proof fn law_draft_content(s: SendEmail, from_name: Seq<char>, from_email: Seq<char>)
    ensures
        draft_spec(s, from_name, from_email)->Obj_0["from"@]
            == Jv::Arr(seq![Jv::Obj(map!["name"@ => Jv::Str(from_name), "email"@ => Jv::Str(from_email)])]),
        draft_spec(s, from_name, from_email)->Obj_0["subject"@] == Jv::Str(s.subject@),
        draft_spec(s, from_name, from_email)->Obj_0["bodyValues"@]
            == Jv::Obj(map!["body"@ => Jv::Obj(map!["value"@ => Jv::Str(s.body@)])]),
        draft_spec(s, from_name, from_email)->Obj_0["keywords"@] == Jv::Obj(map!["$draft"@ => Jv::Bool(true)]),
        draft_spec(s, from_name, from_email)->Obj_0.contains_key("htmlBody"@) == s.is_html,
        draft_spec(s, from_name, from_email)->Obj_0.contains_key("textBody"@) == !s.is_html,
        s.is_html ==> draft_spec(s, from_name, from_email)->Obj_0["htmlBody"@]
            == Jv::Arr(seq![Jv::Obj(map!["partId"@ => Jv::Str("body"@), "type"@ => Jv::Str("text/html"@)])]),
        !s.is_html ==> draft_spec(s, from_name, from_email)->Obj_0["textBody"@]
            == Jv::Arr(seq![Jv::Obj(map!["partId"@ => Jv::Str("body"@), "type"@ => Jv::Str("text/plain"@)])]),
{
    reveal_strlit("from");
    reveal_strlit("to");
    reveal_strlit("subject");
    reveal_strlit("keywords");
    reveal_strlit("bodyValues");
    reveal_strlit("htmlBody");
    reveal_strlit("textBody");
    reveal_strlit("cc");
    reveal_strlit("bcc");
    assert("keywords"@[0] != "htmlBody"@[0] && "keywords"@[0] != "textBody"@[0] && "htmlBody"@[0] != "textBody"@[0]);
    assert("from"@.len() != "subject"@.len() && "from"@.len() != "keywords"@.len() && "from"@.len() != "bodyValues"@.len());
    assert("from"@.len() != "htmlBody"@.len() && "from"@.len() != "cc"@.len() && "from"@.len() != "bcc"@.len());
    assert("subject"@.len() != "keywords"@.len() && "subject"@.len() != "bodyValues"@.len() && "subject"@.len() != "htmlBody"@.len());
    assert("subject"@.len() != "cc"@.len() && "subject"@.len() != "bcc"@.len());
    assert("bodyValues"@.len() != "keywords"@.len() && "bodyValues"@.len() != "htmlBody"@.len());
    assert("bodyValues"@.len() != "cc"@.len() && "bodyValues"@.len() != "bcc"@.len());
    assert("keywords"@.len() != "cc"@.len() && "keywords"@.len() != "bcc"@.len() && "keywords"@.len() != "to"@.len());
    assert("htmlBody"@.len() != "cc"@.len() && "htmlBody"@.len() != "bcc"@.len() && "htmlBody"@.len() != "to"@.len());
    assert("from"@.len() != "to"@.len() && "subject"@.len() != "to"@.len() && "bodyValues"@.len() != "to"@.len());
}

/// A reply names the message it answers: `In-Reply-To` holds the original's first message
/// id, `References` the original's references followed by that id; every other member of
/// the message stays as it was.
pub proof fn law_reply_headers(email: Map<Seq<char>, Jv>, original: Jv, first: Jv, ids: Seq<Jv>, refs: Seq<Jv>, k: Seq<char>)
    requires
        member(original, "list"@) matches Some(Jv::Arr(l)) && l.len() > 0 && l[0] == first,
        member(first, "messageId"@) == Some(Jv::Arr(ids)),
        ids.len() > 0,
        (match member(first, "references"@) { Some(Jv::Arr(r)) => r, _ => Seq::empty() }) == refs,
    ensures
        reply_spec(Jv::Obj(email), original)->Obj_0["header:In-Reply-To:asMessageIds"@] == Jv::Arr(seq![ids[0]]),
        reply_spec(Jv::Obj(email), original)->Obj_0["header:References:asMessageIds"@] == Jv::Arr(refs + seq![ids[0]]),
        k != "header:In-Reply-To:asMessageIds"@ && k != "header:References:asMessageIds"@
            ==> reply_spec(Jv::Obj(email), original)->Obj_0.contains_key(k) == email.contains_key(k)
                && reply_spec(Jv::Obj(email), original)->Obj_0[k] == email[k],
{
    reveal_strlit("header:In-Reply-To:asMessageIds");
    reveal_strlit("header:References:asMessageIds");
    assert("header:In-Reply-To:asMessageIds"@[7] != "header:References:asMessageIds"@[7]);
    assert(refs.push(ids[0]) =~= refs + seq![ids[0]]);
}

/// The message a reply carries: `email` with `In-Reply-To` set to the original's first
/// message id and `References` to the original's references followed by it. Without an
/// original or a message id, `email` is unchanged.
pub open spec fn reply_spec(email: Jv, original: Jv) -> Jv {
    match member(original, "list"@) {
        Some(Jv::Arr(l)) => if l.len() > 0 {
            match member(l[0], "messageId"@) {
                Some(Jv::Arr(ids)) => if ids.len() > 0 {
                    let refs = match member(l[0], "references"@) {
                        Some(Jv::Arr(r)) => r,
                        _ => Seq::empty(),
                    };
                    Jv::Obj(email->Obj_0
                        .insert("header:In-Reply-To:asMessageIds"@, Jv::Arr(seq![ids[0]]))
                        .insert("header:References:asMessageIds"@, Jv::Arr(refs.push(ids[0]))))
                } else {
                    email
                },
                _ => email,
            }
        } else {
            email
        },
        _ => email,
    }
}

/// The sending identity of an `Identity/get` result: the first identity's id, email and
/// name (the last two empty when absent).
pub open spec fn sender(data: Jv) -> Option<(Seq<char>, Seq<char>, Seq<char>)> {
    match member(data, "list"@) {
        Some(Jv::Arr(l)) => if l.len() > 0 {
            match crate::actions::str_member_of(l[0], "id"@) {
                Some(id) => Some((
                    id,
                    match crate::actions::str_member_of(l[0], "email"@) { Some(e) => e, None => Seq::empty() },
                    match crate::actions::str_member_of(l[0], "name"@) { Some(n) => n, None => Seq::empty() },
                )),
                None => None,
            }
        } else {
            None
        },
        _ => None,
    }
}

/// The two calls that send a draft: create it, then submit it as the identity.
pub open spec fn send_calls(account_id: Seq<char>, draft: Jv, identity_id: Seq<char>) -> Seq<(Seq<char>, Jv, Seq<char>)> {
    seq![
        ("Email/set"@, Jv::Obj(map!["accountId"@ => Jv::Str(account_id), "create"@ => Jv::Obj(map!["draft"@ => draft])]), "call-0"@),
        ("EmailSubmission/set"@, Jv::Obj(map![
            "accountId"@ => Jv::Str(account_id),
            "create"@ => Jv::Obj(map!["submission"@ => Jv::Obj(map!["emailId"@ => Jv::Str("#draft"@), "identityId"@ => Jv::Str(identity_id)])])
        ]), "call-1"@)
    ]
}

/// Sending creates the draft and submits that very draft: the submission's email is the
/// back-reference `#` to the one email the first call creates, and it is sent as the
/// identity given, both calls in the account given.
pub proof fn law_send_submits_the_draft(account_id: Seq<char>, draft: Jv, identity_id: Seq<char>)
    ensures
        ({
            let calls = send_calls(account_id, draft, identity_id);
            let create = calls[0].1->Obj_0["create"@]->Obj_0;
            let sub = calls[1].1->Obj_0["create"@]->Obj_0["submission"@]->Obj_0;
            &&& calls.len() == 2
            &&& calls[0].0 == "Email/set"@ && calls[1].0 == "EmailSubmission/set"@
            &&& calls[0].1->Obj_0["accountId"@] == Jv::Str(account_id)
            &&& calls[1].1->Obj_0["accountId"@] == Jv::Str(account_id)
            &&& create.dom().len() == 1
            &&& exists|c: Seq<char>| #[trigger] create.contains_key(c) && create[c] == draft && sub["emailId"@] == Jv::Str("#"@ + c)
            &&& sub["identityId"@] == Jv::Str(identity_id)
        }),
{
    reveal_strlit("accountId");
    reveal_strlit("create");
    reveal_strlit("emailId");
    reveal_strlit("identityId");
    reveal_strlit("#draft");
    reveal_strlit("draft");
    reveal_strlit("#");
    assert("accountId"@.len() != "create"@.len() && "emailId"@.len() != "identityId"@.len());
    assert("#draft"@ =~= "#"@ + "draft"@);
    let create = send_calls(account_id, draft, identity_id)[0].1->Obj_0["create"@]->Obj_0;
    assert(create =~= map!["draft"@ => draft]);
    assert(create.dom() =~= set!["draft"@]);
    assert(create.contains_key("draft"@));
}

/// The id of the created draft in a send response (empty when absent).
pub open spec fn created_draft_id(rs: Seq<(Seq<char>, Jv, Seq<char>)>) -> Seq<char> {
    match first_named(rs, "Email/set"@) {
        Some(d) => match member(d, "created"@) {
            Some(c) => match member(c, "draft"@) {
                Some(x) => match member(x, "id"@) {
                    Some(Jv::Str(id)) => id,
                    _ => Seq::empty(),
                },
                None => Seq::empty(),
            },
            None => Seq::empty(),
        },
        None => Seq::empty(),
    }
}

/// What a send response yields: the first failure of the draft creation, else of the
/// submission, as a JMAP error of that method; else success with the draft's id.
pub open spec fn send_outcome(rs: Seq<(Seq<char>, Jv, Seq<char>)>) -> Result<Jv, (Seq<char>, Seq<char>)> {
    match first_named(rs, "Email/set"@) {
        Some(d) if set_failure(d) is Some => Err(("Email/set"@, set_failure(d)->0)),
        _ => match first_named(rs, "EmailSubmission/set"@) {
            Some(d) if set_failure(d) is Some => Err(("EmailSubmission/set"@, set_failure(d)->0)),
            _ => Ok(Jv::Obj(map!["success"@ => Jv::Bool(true), "emailId"@ => Jv::Str(created_draft_id(rs))])),
        },
    }
}

/// The string member `k` of a value, or empty.
fn str_or_empty(v: &JsonValue, k: &str) -> (r: String)
    ensures
        r@ == match crate::actions::str_member_of(v@, k@) { Some(s) => s, None => Seq::empty() },
{
    match v.get(k) {
        Some(x) => match x.as_str() {
            Some(s) => text::own(s),
            None => String::new(),
        },
        None => String::new(),
    }
}

/// The sending identity of an `Identity/get` result, or the error that there is none.
pub fn sender_from(data: &JsonValue) -> (r: Result<(String, String, String), Error>)
    ensures
        match sender(data@) {
            Some((id, e, n)) => r matches Ok((a, b, c)) && a@ == id && b@ == e && c@ == n,
            None => r matches Err(Error::Jmap { method, message }) && method@ == "Identity/get"@
                && message@ == "no sending identity found"@,
        },
{
    let l = match data.get("list") {
        Some(l) => l,
        None => return Err(Error::jmap("Identity/get", "no sending identity found")),
    };
    let a = match l.as_array() {
        Some(a) => a,
        None => return Err(Error::jmap("Identity/get", "no sending identity found")),
    };
    if a.len() == 0 {
        return Err(Error::jmap("Identity/get", "no sending identity found"));
    }
    let first = &a[0];
    let id = match first.get("id") {
        Some(x) => match x.as_str() {
            Some(s) => text::own(s),
            None => return Err(Error::jmap("Identity/get", "no sending identity found")),
        },
        None => return Err(Error::jmap("Identity/get", "no sending identity found")),
    };
    Ok((id, str_or_empty(first, "email"), str_or_empty(first, "name")))
}

/// Set member `k` of an object value.
fn set_member(v: JsonValue, k: &str, x: JsonValue) -> (r: JsonValue)
    requires
        v@ is Obj,
    ensures
        r@ == Jv::Obj(v@->Obj_0.insert(k@, x@)),
{
    proof { v.lemma_view(); }
    match v {
        JsonValue::Object(o) => {
            let mut o = o;
            o.insert(text::own(k), x);
            JsonValue::object(o)
        },
        _ => v,
    }
}

/// A draft with reply headers taken from the original message (see `reply_spec`).
pub fn with_reply_headers(email: JsonValue, original: &JsonValue) -> (r: JsonValue)
    requires
        email@ is Obj,
    ensures
        r@ == reply_spec(email@, original@),
{
    let l = match original.get("list") {
        Some(l) => l,
        None => return email,
    };
    let a = match l.as_array() {
        Some(a) => a,
        None => return email,
    };
    if a.len() == 0 {
        return email;
    }
    let orig = &a[0];
    let ids_v = match orig.get("messageId") {
        Some(x) => x,
        None => return email,
    };
    let ids = match ids_v.as_array() {
        Some(ids) => ids,
        None => return email,
    };
    if ids.len() == 0 {
        return email;
    }
    let msg_id = &ids[0];
    let mut refs: Vec<JsonValue> = Vec::new();
    let ghost src: Seq<Jv> = match member(orig@, "references"@) {
        Some(Jv::Arr(r)) => r,
        _ => Seq::empty(),
    };
    if let Some(rv) = orig.get("references") {
        if let Some(ra) = rv.as_array() {
            let mut i: usize = 0;
            while i < ra.len()
                invariant
                    i <= ra.len(),
                    src.len() == ra@.len(),
                    forall|j: int| 0 <= j < ra@.len() ==> (#[trigger] ra@[j])@ == src[j],
                    refs@.len() == i,
                    forall|j: int| 0 <= j < i ==> (#[trigger] refs@[j])@ == src[j],
                decreases ra.len() - i,
            {
                refs.push(ra[i].deep_clone());
                i = i + 1;
            }
        }
    }
    refs.push(msg_id.deep_clone());
    let refs_v = JsonValue::array(refs);
    assert(views(refs@) =~= src.push(msg_id@));
    let e1 = set_member(email, "header:In-Reply-To:asMessageIds", JsonValue::single(msg_id.deep_clone()));
    set_member(e1, "header:References:asMessageIds", refs_v)
}

/// Whether `e` is the refusal `InvalidParams(msg)`.
pub open spec fn refused(e: Error, msg: Seq<char>) -> bool {
    e matches Error::InvalidParams(m) && m@ == msg
}

impl SendEmail {
    /// The draft this message becomes, sent from (`from_name`, `from_email`).
    pub fn draft(&self, from_name: &str, from_email: &str) -> (r: JsonValue)
        ensures
            r@ == draft_spec(*self, from_name@, from_email@),
            r@ is Obj,
    {
        proof { JsonValue::Bool(true).lemma_view(); }
        let sender = JsonValue::object(JsonObject::new()
            .with("name", JsonValue::string(from_name))
            .with("email", JsonValue::string(from_email)));
        assert(sender@->Obj_0 =~= map!["name"@ => Jv::Str(from_name@), "email"@ => Jv::Str(from_email@)]);
        let keywords = JsonValue::object(JsonObject::new().with("$draft", JsonValue::Bool(true)));
        assert(keywords@->Obj_0 =~= map!["$draft"@ => Jv::Bool(true)]);
        let value = JsonValue::object(JsonObject::new().with("value", JsonValue::string(self.body.as_str())));
        assert(value@->Obj_0 =~= map!["value"@ => Jv::Str(self.body@)]);
        let body_values = JsonValue::object(JsonObject::new().with("body", value));
        assert(body_values@->Obj_0 =~= map!["body"@ => Jv::Obj(map!["value"@ => Jv::Str(self.body@)])]);
        let body_type = if self.is_html { "text/html" } else { "text/plain" };
        let part = JsonValue::object(JsonObject::new()
            .with("partId", JsonValue::string("body"))
            .with("type", JsonValue::string(body_type)));
        assert(part@->Obj_0 =~= map!["partId"@ => Jv::Str("body"@), "type"@ => Jv::Str(if self.is_html { "text/html"@ } else { "text/plain"@ })]);
        let mut o = JsonObject::new()
            .with("from", JsonValue::single(sender))
            .with("to", addresses(&self.to))
            .with("subject", JsonValue::string(self.subject.as_str()))
            .with("keywords", keywords)
            .with("bodyValues", body_values);
        let body_key = if self.is_html { "htmlBody" } else { "textBody" };
        o.insert(text::own(body_key), JsonValue::single(part));
        if self.cc.len() > 0 {
            o.insert(text::own("cc"), addresses(&self.cc));
        }
        if self.bcc.len() > 0 {
            o.insert(text::own("bcc"), addresses(&self.bcc));
        }
        let r = JsonValue::object(o);
        assert(r@->Obj_0 =~= draft_spec(*self, from_name@, from_email@)->Obj_0);
        r
    }
}

/// The calls that send a draft as an identity (see `send_calls`).
pub fn send_email_calls(account_id: &str, draft: JsonValue, identity_id: &str) -> (r: Vec<MethodCall>)
    ensures
        calls_of(r@) == send_calls(account_id@, draft@, identity_id@),
{
    let ghost dv = draft@;
    let create = JsonValue::object(JsonObject::new().with("draft", draft));
    let a0 = JsonValue::object(JsonObject::new()
        .with("accountId", JsonValue::string(account_id))
        .with("create", create));
    let sub = JsonValue::object(JsonObject::new()
        .with("emailId", JsonValue::string("#draft"))
        .with("identityId", JsonValue::string(identity_id)));
    let subc = JsonValue::object(JsonObject::new().with("submission", sub));
    let a1 = JsonValue::object(JsonObject::new()
        .with("accountId", JsonValue::string(account_id))
        .with("create", subc));
    proof {
        assert(create@->Obj_0 =~= map!["draft"@ => dv]);
        assert(a0@->Obj_0 =~= map!["accountId"@ => Jv::Str(account_id@), "create"@ => Jv::Obj(map!["draft"@ => dv])]);
        assert(sub@->Obj_0 =~= map!["emailId"@ => Jv::Str("#draft"@), "identityId"@ => Jv::Str(identity_id@)]);
        assert(subc@->Obj_0 =~= map!["submission"@ => sub@]);
        assert(a1@->Obj_0 =~= map!["accountId"@ => Jv::Str(account_id@), "create"@ => subc@]);
    }
    let r = vec![
        (text::own("Email/set"), a0, text::own("call-0")),
        (text::own("EmailSubmission/set"), a1, text::own("call-1")),
    ];
    assert(calls_of(r@) =~= send_calls(account_id@, dv, identity_id@));
    r
}

/// The outcome of a send response (see `send_outcome`).
pub fn send_result(resp: &JmapResponse) -> (r: Result<JsonValue, Error>)
    ensures
        match send_outcome(resp.responses_view()) {
            Ok(v) => r matches Ok(x) && x@ == v,
            Err(m) => r matches Err(e) && crate::jmap::client::is_jmap_error(e, m),
        },
{
    if let Some(d) = find_response(resp, "Email/set") {
        check_set_errors(d, "Email/set")?;
    }
    if let Some(d) = find_response(resp, "EmailSubmission/set") {
        check_set_errors(d, "EmailSubmission/set")?;
    }
    let mut id = String::new();
    if let Some(d) = find_response(resp, "Email/set") {
        if let Some(c) = d.get("created") {
            if let Some(x) = c.get("draft") {
                if let Some(i) = x.get("id") {
                    if let Some(s) = i.as_str() {
                        id = text::own(s);
                    }
                }
            }
        }
    }
    proof { JsonValue::Bool(true).lemma_view(); }
    let o = JsonObject::new().with("success", JsonValue::Bool(true)).with("emailId", JsonValue::Str(id));
    proof { JsonValue::Str(id).lemma_view(); }
    let r = JsonValue::object(o);
    assert(r@->Obj_0 =~= map!["success"@ => Jv::Bool(true), "emailId"@ => Jv::Str(created_draft_id(resp.responses_view()))]);
    Ok(r)
}

/// What the submission exchange gives for its reply: the transport's error, a JSON error
/// for a document that is no JMAP response, or what the responses give (see `send_outcome`).
pub open spec fn send_reply(reply: Result<Jv, Error>, r: Result<JsonValue, Error>) -> bool {
    match reply {
        Err(e) => r matches Err(x) && x == e,
        Ok(j) => match crate::jmap::types::decode_response(j) {
            None => r matches Err(e) && e is Json,
            Some((rs, _)) => match send_outcome(rs) {
                Ok(v) => r matches Ok(x) && x@ == v,
                Err(m) => r matches Err(e) && crate::jmap::client::is_jmap_error(e, m),
            },
        },
    }
}

/// Whether `after` is `before` with one more exchange, the submission of `draft` from
/// `identity_id`, and `r` is what its reply gives.
pub open spec fn submitted(
    c: JmapClient,
    before: Seq<Exchanged>,
    after: Seq<Exchanged>,
    account_id: Seq<char>,
    draft: Jv,
    identity_id: Seq<char>,
    r: Result<JsonValue, Error>,
) -> bool {
    &&& one_more(before, after)
    &&& posted(after, c.api_url_view(), c.token_view(), crate::jmap::types::request_json(
        seq!["urn:ietf:params:jmap:core"@, "urn:ietf:params:jmap:mail"@, "urn:ietf:params:jmap:submission"@],
        send_calls(account_id, draft, identity_id)))
    &&& send_reply(last_reply(after), r)
}

/// The `Email/get` arguments that look up the email replied to.
pub open spec fn reply_lookup_args(account_id: Seq<char>, email_id: Seq<char>) -> Jv {
    Jv::Obj(map![
        "accountId"@ => Jv::Str(account_id),
        "ids"@ => Jv::Arr(seq![Jv::Str(email_id)]),
        "properties"@ => Jv::Arr(seq![Jv::Str("messageId"@), Jv::Str("references"@)])
    ])
}

/// What sending gives once the identity is known: with no email replied to, the
/// submission of the draft; else first the lookup of that email, then the submission of
/// the draft with its reply headers.
pub open spec fn send_after_identity(
    s: SendEmail,
    c: JmapClient,
    before: Seq<Exchanged>,
    after: Seq<Exchanged>,
    account_id: Seq<char>,
    identity_id: Seq<char>,
    draft: Jv,
    r: Result<JsonValue, Error>,
) -> bool {
    if s.in_reply_to@.len() == 0 {
        submitted(c, before, after, account_id, draft, identity_id, r)
    } else {
        let mid = after.take(before.len() + 1int);
        &&& after.len() >= before.len() + 1
        &&& single_sent(c, before, mid, "urn:ietf:params:jmap:mail"@, "Email/get"@, reply_lookup_args(account_id, s.in_reply_to@))
        &&& match single_ok("Email/get"@, last_reply(mid)) {
            Some(j) => submitted(c, mid, after, account_id, reply_spec(draft, j), identity_id, r),
            None => after == mid && (r matches Err(e) && single_failed("Email/get"@, last_reply(mid), e)),
        }
    }
}

impl SendEmail {
    /// What running this action does, the exchanges it makes taking the log from
    /// `before` to `after` (see `run`).
    pub open spec fn outcome(self, ctx: Context, before: Seq<Exchanged>, after: Seq<Exchanged>, r: Result<JsonValue, Error>) -> bool {
        &&& (self.to@.len() == 0 ==> (r matches Err(e) && refused(e, "to is required"@)))
        &&& (self.to@.len() > 0 && self.subject@.len() == 0 ==> (r matches Err(e) && refused(e, "subject is required"@)))
        &&& (self.to@.len() > 0 && self.subject@.len() > 0 && self.body@.len() == 0
            ==> (r matches Err(e) && refused(e, "body is required"@)))
        &&& (self.to@.len() == 0 || self.subject@.len() == 0 || self.body@.len() == 0 ==> after == before)
        &&& (self.to@.len() > 0 && self.subject@.len() > 0 && self.body@.len() > 0 ==> ({
            let mid = after.take(before.len() + 1int);
            &&& after.len() >= before.len() + 1
            &&& single_sent(ctx.jmap, before, mid, "urn:ietf:params:jmap:submission"@, "Identity/get"@,
                Jv::Obj(map!["accountId"@ => Jv::Str(ctx.account_id@)]))
            &&& match single_ok("Identity/get"@, last_reply(mid)) {
                Some(j) => match sender(j) {
                    Some((id, from_email, from_name)) => send_after_identity(self, ctx.jmap, mid, after,
                        ctx.account_id@, id, draft_spec(self, from_name, from_email), r),
                    None => after == mid && (r matches Err(Error::Jmap { method, message })
                        && method@ == "Identity/get"@ && message@ == "no sending identity found"@),
                },
                None => after == mid && (r matches Err(e) && single_failed("Identity/get"@, last_reply(mid), e)),
        }
        }))
    }
}

impl Action for SendEmail {
    fn run<T: HttpTransport>(&self, ctx: &Context, t: &mut Exchange<T>) -> (r: Result<JsonValue, Error>)
        ensures
            self.outcome(*ctx, old(t).log(), final(t).log(), r),
    {
        if self.to.len() == 0 {
            return Err(Error::invalid("to is required"));
        }
        if self.subject.as_str().is_empty() {
            return Err(Error::invalid("subject is required"));
        }
        if self.body.as_str().is_empty() {
            return Err(Error::invalid("body is required"));
        }
        let account = ctx.account_id.as_str();
        let args = JsonValue::object(JsonObject::new().with("accountId", JsonValue::string(account)));
        assert(args@->Obj_0 =~= map!["accountId"@ => Jv::Str(ctx.account_id@)]);
        let ghost before = t.log();
        let ident = ctx.jmap.call_one(t, "urn:ietf:params:jmap:submission", "Identity/get", args);
        let ghost l1 = t.log();
        assert(l1.take(before.len() + 1int) =~= l1);
        let data = match ident {
            Ok(d) => d,
            Err(e) => return Err(e),
        };
        let (identity_id, from_email, from_name) = match sender_from(&data) {
            Ok(x) => x,
            Err(e) => return Err(e),
        };
        let mut email = self.draft(from_name.as_str(), from_email.as_str());
        let ghost l2 = l1;
        if !self.in_reply_to.as_str().is_empty() {
            let props = JsonValue::array(vec![JsonValue::string("messageId"), JsonValue::string("references")]);
            let lookup = JsonValue::object(JsonObject::new()
                .with("accountId", JsonValue::string(account))
                .with("ids", JsonValue::single(JsonValue::string(self.in_reply_to.as_str())))
                .with("properties", props));
            assert(props@->Arr_0 =~= seq![Jv::Str("messageId"@), Jv::Str("references"@)]);
            assert(lookup@->Obj_0 =~= reply_lookup_args(ctx.account_id@, self.in_reply_to@)->Obj_0);
            let found = ctx.jmap.call_one(t, "urn:ietf:params:jmap:mail", "Email/get", lookup);
            proof {
                l2 = t.log();
                assert(l2.take(l1.len() + 1int) =~= l2);
                assert(l2.take(before.len() + 1int) =~= l1);
            }
            let original = match found {
                Ok(o) => o,
                Err(e) => return Err(e),
            };
            email = with_reply_headers(email, &original);
        }
        let calls = send_email_calls(account, email, identity_id.as_str());
        let using = vec![
            text::own("urn:ietf:params:jmap:core"),
            text::own("urn:ietf:params:jmap:mail"),
            text::own("urn:ietf:params:jmap:submission"),
        ];
        proof {
            assert(crate::json::texts(using@) =~= seq!["urn:ietf:params:jmap:core"@, "urn:ietf:params:jmap:mail"@,
                "urn:ietf:params:jmap:submission"@]);
        }
        let res = ctx.jmap.call(t, using, calls);
        proof {
            assert(t.log().take(before.len() + 1int) =~= l1);
            if self.in_reply_to@.len() > 0 {
                assert(t.log().take(l1.len() + 1int) =~= l2);
            }
        }
        match res {
            Ok(resp) => send_result(&resp),
            Err(e) => Err(e),
        }
    }
}

// ---------------------------------------------------------------------------------------
// move_email, delete_email, flag_email

/// The same patch for every id.
pub open spec fn uniform_update(ids: Seq<Seq<char>>, patch: Jv) -> Map<Seq<char>, Jv> {
    Map::new(|k: Seq<char>| ids.contains(k), |k: Seq<char>| patch)
}

/// An update map giving every id the same patch.
pub fn update_all(ids: &Vec<String>, patch: &JsonValue) -> (r: JsonObject)
    ensures
        r@ == uniform_update(crate::json::texts(ids@), patch@),
{
    let ghost ts = crate::json::texts(ids@);
    let mut m = JsonObject::new();
    let mut i: usize = 0;
    while i < ids.len()
        invariant
            i <= ids@.len(),
            ts == crate::json::texts(ids@),
            m@ == uniform_update(ts.take(i as int), patch@),
        decreases ids.len() - i,
    {
        proof {
            let a = ts.take(i as int);
            let b = ts.take(i as int + 1);
            assert(b =~= a.push(ids@[i as int]@));
            assert forall|k: Seq<char>| b.contains(k) <==> (a.contains(k) || k == ids@[i as int]@) by {
                if b.contains(k) {
                    let j = choose|j: int| 0 <= j < b.len() && b[j] == k;
                    if j < a.len() {
                        assert(a[j] == k);
                    }
                }
                if a.contains(k) {
                    let j = choose|j: int| 0 <= j < a.len() && a[j] == k;
                    assert(b[j] == k);
                }
                if k == ids@[i as int]@ {
                    assert(b[a.len() as int] == k);
                }
            }
        }
        m.insert(ids[i].clone(), patch.deep_clone());
        assert(m@ =~= uniform_update(ts.take(i as int + 1), patch@));
        i = i + 1;
    }
    assert(ts.take(ids@.len() as int) == ts);
    m
}

/// The number of members of object member `k` (0 when it is not an object).
pub open spec fn object_count(data: Jv, k: Seq<char>) -> nat {
    match member(data, k) {
        Some(Jv::Obj(m)) => m.len(),
        _ => 0,
    }
}

/// The number of elements of array member `k` (0 when it is not an array).
pub open spec fn array_count(data: Jv, k: Seq<char>) -> nat {
    match member(data, k) {
        Some(Jv::Arr(a)) => a.len(),
        _ => 0,
    }
}

/// What an `Email/set` result yields: its first partial failure as a JMAP error, else
/// `{out: count}`.
pub open spec fn counted(data: Jv, out: Seq<char>, count: nat) -> Result<Jv, (Seq<char>, Seq<char>)> {
    match set_failure(data) {
        Some(msg) => Err(("Email/set"@, msg)),
        None => Ok(Jv::Obj(map![out => Jv::UInt(count as u64)])),
    }
}

/// The outcome of an `Email/set` result: its failure, else `{out: n}` where `n` counts
/// the members of `updated` (or, with `destroyed`, the elements of `destroyed`).
pub fn set_count_result(data: &JsonValue, out: &str, destroyed: bool) -> (r: Result<JsonValue, Error>)
    ensures
        match counted(data@, out@, if destroyed { array_count(data@, "destroyed"@) } else { object_count(data@, "updated"@) }) {
            Ok(v) => r matches Ok(x) && x@ == v,
            Err(m) => r matches Err(e) && crate::jmap::client::is_jmap_error(e, m),
        },
{
    check_set_errors(data, "Email/set")?;
    let n: usize = if destroyed {
        match data.get("destroyed") {
            Some(d) => match d.as_array() {
                Some(a) => a.len(),
                None => 0,
            },
            None => 0,
        }
    } else {
        match data.get("updated") {
            Some(u) => match u.as_object() {
                Some(o) => o.len(),
                None => 0,
            },
            None => 0,
        }
    };
    proof { JsonValue::UInt(n as u64).lemma_view(); }
    let r = JsonValue::object(JsonObject::new().with(out, JsonValue::UInt(n as u64)));
    assert(r@->Obj_0 =~= map![out@ => Jv::UInt(n as u64)]);
    Ok(r)
}

/// `Email/set` arguments that apply `update`.
pub open spec fn update_args(account_id: Seq<char>, update: Map<Seq<char>, Jv>) -> Jv {
    Jv::Obj(map!["accountId"@ => Jv::Str(account_id), "update"@ => Jv::Obj(update)])
}

/// `Email/set` arguments that apply `update`.
pub fn update_args_of(account_id: &str, update: JsonObject) -> (r: JsonValue)
    ensures
        r@ == update_args(account_id@, update@),
{
    let ghost u = update@;
    let r = JsonValue::object(JsonObject::new()
        .with("accountId", JsonValue::string(account_id))
        .with("update", JsonValue::object(update)));
    assert(r@->Obj_0 =~= update_args(account_id@, u)->Obj_0);
    r
}

/// The patch that puts an email in exactly one mailbox.
pub open spec fn into_mailbox(mailbox_id: Seq<char>) -> Jv {
    Jv::Obj(map!["mailboxIds"@ => Jv::Obj(map![mailbox_id => Jv::Bool(true)])])
}

/// The patch that puts an email in exactly one mailbox.
pub fn into_mailbox_patch(mailbox_id: &str) -> (r: JsonValue)
    ensures
        r@ == into_mailbox(mailbox_id@),
{
    proof { JsonValue::Bool(true).lemma_view(); }
    let inner = JsonValue::object(JsonObject::new().with(mailbox_id, JsonValue::Bool(true)));
    assert(inner@->Obj_0 =~= map![mailbox_id@ => Jv::Bool(true)]);
    let r = JsonValue::object(JsonObject::new().with("mailboxIds", inner));
    assert(r@->Obj_0 =~= into_mailbox(mailbox_id@)->Obj_0);
    r
}

/// Emails to move into a mailbox.
pub struct MoveEmail {
    pub email_ids: Vec<String>,
    pub mailbox_id: String,
}

/// What an `Email/set` result `j` gives: its first failure, else the count of the
/// `out` emails (see `set_count_result`).
pub open spec fn count_outcome(j: Jv, out: Seq<char>, destroyed: bool, r: Result<JsonValue, Error>) -> bool {
    match counted(j, out, if destroyed { array_count(j, "destroyed"@) } else { object_count(j, "updated"@) }) {
        Ok(v) => r matches Ok(x) && x@ == v,
        Err(m) => r matches Err(e) && crate::jmap::client::is_jmap_error(e, m),
    }
}

/// Whether `after` is `before` with one more exchange, the `Email/set` with `args`, and `r`
/// is what its result gives (see `count_outcome`; an error when it gives none).
pub open spec fn email_set_call(
    c: JmapClient,
    before: Seq<Exchanged>,
    after: Seq<Exchanged>,
    args: Jv,
    out: Seq<char>,
    destroyed: bool,
    r: Result<JsonValue, Error>,
) -> bool {
    &&& single_sent(c, before, after, "urn:ietf:params:jmap:mail"@, "Email/set"@, args)
    &&& match single_ok("Email/set"@, last_reply(after)) {
        Some(j) => count_outcome(j, out, destroyed, r),
        None => (r matches Err(e) && single_failed("Email/set"@, last_reply(after), e)),
    }
}

/// The trash mailbox of a `Mailbox/get` result, if any.
pub open spec fn trash_of(j: Jv) -> Option<Seq<char>> {
    match member(j, "list"@) {
        Some(Jv::Arr(ms)) => mailbox_with_role(ms, "trash"@),
        _ => None,
    }
}

/// The mailbox taken for the trash is one the list gives with the role `trash`, and it is
/// the first such mailbox; with no mailbox of that role, there is none.
pub proof fn law_trash_is_the_trash_role(ms: Seq<Jv>)
    ensures
        trash_of(Jv::Obj(map!["list"@ => Jv::Arr(ms)])) matches Some(id) ==> exists|i: int| 0 <= i < ms.len()
            && str_member_of(#[trigger] ms[i], "role"@) == Some("trash"@) && str_member_of(ms[i], "id"@) == Some(id)
            && forall|j: int| 0 <= j < i ==> !(str_member_of(#[trigger] ms[j], "role"@) == Some("trash"@)
                && str_member_of(ms[j], "id"@) is Some),
        (forall|i: int| 0 <= i < ms.len() ==> !(str_member_of(#[trigger] ms[i], "role"@) == Some("trash"@)
            && str_member_of(ms[i], "id"@) is Some)) ==> trash_of(Jv::Obj(map!["list"@ => Jv::Arr(ms)])) is None,
{
    lemma_role_search(ms, "trash"@);
}

/// The mailbox a role search finds is the first with that role and an id.
proof fn lemma_role_search(ms: Seq<Jv>, role: Seq<char>)
    ensures
        mailbox_with_role(ms, role) matches Some(id) ==> exists|i: int| 0 <= i < ms.len()
            && str_member_of(#[trigger] ms[i], "role"@) == Some(role) && str_member_of(ms[i], "id"@) == Some(id)
            && forall|j: int| 0 <= j < i ==> !(str_member_of(#[trigger] ms[j], "role"@) == Some(role)
                && str_member_of(ms[j], "id"@) is Some),
        (forall|i: int| 0 <= i < ms.len() ==> !(str_member_of(#[trigger] ms[i], "role"@) == Some(role)
            && str_member_of(ms[i], "id"@) is Some)) ==> mailbox_with_role(ms, role) is None,
    decreases ms.len(),
{
    if ms.len() > 0 {
        let rest = ms.drop_first();
        lemma_role_search(rest, role);
        if !(str_member_of(ms[0], "role"@) == Some(role) && str_member_of(ms[0], "id"@) is Some) {
            if mailbox_with_role(ms, role) is Some {
                let id = mailbox_with_role(ms, role)->0;
                let i = choose|i: int| 0 <= i < rest.len()
                    && str_member_of(#[trigger] rest[i], "role"@) == Some(role) && str_member_of(rest[i], "id"@) == Some(id)
                    && forall|j: int| 0 <= j < i ==> !(str_member_of(#[trigger] rest[j], "role"@) == Some(role)
                        && str_member_of(rest[j], "id"@) is Some);
                assert(ms[i + 1] == rest[i]);
                assert forall|j: int| 0 <= j < i + 1 implies !(str_member_of(#[trigger] ms[j], "role"@) == Some(role)
                    && str_member_of(ms[j], "id"@) is Some) by {
                    if j > 0 { assert(ms[j] == rest[j - 1]); }
                }
            }
            if forall|i: int| 0 <= i < ms.len() ==> !(str_member_of(#[trigger] ms[i], "role"@) == Some(role)
                && str_member_of(ms[i], "id"@) is Some) {
                assert forall|i: int| 0 <= i < rest.len() implies !(str_member_of(#[trigger] rest[i], "role"@) == Some(role)
                    && str_member_of(rest[i], "id"@) is Some) by {
                    assert(rest[i] == ms[i + 1]);
                }
            }
        }
    }
}

impl MoveEmail {
    /// What running this action does, the exchanges it makes taking the log from
    /// `before` to `after` (see `run`).
    pub open spec fn outcome(self, ctx: Context, before: Seq<Exchanged>, after: Seq<Exchanged>, r: Result<JsonValue, Error>) -> bool {
        &&& (self.email_ids@.len() == 0 ==> (r matches Err(e) && refused(e, "emailIds is required"@)
            && after == before))
        &&& (self.email_ids@.len() > 0 && self.mailbox_id@.len() == 0
            ==> (r matches Err(e) && refused(e, "mailboxId is required"@) && after == before))
        &&& (self.email_ids@.len() > 0 && self.mailbox_id@.len() > 0 ==> email_set_call(ctx.jmap, before,
            after, update_args(ctx.account_id@, uniform_update(crate::json::texts(self.email_ids@),
            into_mailbox(self.mailbox_id@))), "moved"@, false, r))
    }
}

/// Whether `args` are `Email/set` arguments in `account_id` that update exactly the emails
/// `ids`, each with `patch`.
pub open spec fn sets_each(args: Jv, account_id: Seq<char>, ids: Seq<Seq<char>>, patch: Jv) -> bool {
    &&& args->Obj_0["accountId"@] == Jv::Str(account_id)
    &&& args->Obj_0["update"@] is Obj
    &&& args->Obj_0["update"@]->Obj_0.dom() == ids.to_set()
    &&& forall|id: Seq<char>| ids.contains(id) ==> #[trigger] args->Obj_0["update"@]->Obj_0[id] == patch
}

/// Update arguments built for a list of emails set each of them, and only them.
proof fn lemma_update_args_set_each(account_id: Seq<char>, ids: Seq<Seq<char>>, patch: Jv)
    ensures
        sets_each(update_args(account_id, uniform_update(ids, patch)), account_id, ids, patch),
{
    reveal_strlit("accountId");
    reveal_strlit("update");
    assert("accountId"@.len() != "update"@.len());
    assert(uniform_update(ids, patch).dom() =~= ids.to_set());
}

/// Moving emails sends one `Email/set` that puts every email given, and only those, in
/// exactly the target mailbox, and counts them as `moved`.
pub proof fn law_move_email_request(a: MoveEmail, ctx: Context, before: Seq<Exchanged>, after: Seq<Exchanged>, r: Result<JsonValue, Error>)
    requires
        a.outcome(ctx, before, after, r),
        a.email_ids@.len() > 0,
        a.mailbox_id@.len() > 0,
    ensures
        exists|args: Jv| #[trigger] email_set_call(ctx.jmap, before, after, args, "moved"@, false, r)
            && sets_each(args, ctx.account_id@, crate::json::texts(a.email_ids@),
                Jv::Obj(map!["mailboxIds"@ => Jv::Obj(map![a.mailbox_id@ => Jv::Bool(true)])])),
{
    let ids = crate::json::texts(a.email_ids@);
    lemma_update_args_set_each(ctx.account_id@, ids, into_mailbox(a.mailbox_id@));
    let args = update_args(ctx.account_id@, uniform_update(ids, into_mailbox(a.mailbox_id@)));
    assert(email_set_call(ctx.jmap, before, after, args, "moved"@, false, r));
}

impl Action for MoveEmail {
    fn run<T: HttpTransport>(&self, ctx: &Context, t: &mut Exchange<T>) -> (r: Result<JsonValue, Error>)
        ensures
            self.outcome(*ctx, old(t).log(), final(t).log(), r),
    {
        if self.email_ids.len() == 0 {
            return Err(Error::invalid("emailIds is required"));
        }
        if self.mailbox_id.as_str().is_empty() {
            return Err(Error::invalid("mailboxId is required"));
        }
        let patch = into_mailbox_patch(self.mailbox_id.as_str());
        let update = update_all(&self.email_ids, &patch);
        let args = update_args_of(ctx.account_id.as_str(), update);
        match ctx.jmap.call_one(t, "urn:ietf:params:jmap:mail", "Email/set", args) {
            Ok(data) => set_count_result(&data, "moved", false),
            Err(e) => Err(e),
        }
    }
}

/// Emails to delete: moved to the Trash, or destroyed outright.
pub struct DeleteEmail {
    pub email_ids: Vec<String>,
    pub permanent: bool,
}

/// What looking up the trash mailbox in a `Mailbox/get` result `j` gives: its id, or the
/// error that there is none.
pub open spec fn trash_outcome(j: Jv, r: Result<String, Error>) -> bool {
    match member(j, "list"@) {
        Some(Jv::Arr(ms)) if mailbox_with_role(ms, "trash"@) is Some => r matches Ok(id) && id@ == mailbox_with_role(ms, "trash"@)->0,
        _ => r matches Err(Error::Jmap { method, message }) && method@ == "Mailbox/get"@ && message@ == "trash mailbox not found"@,
    }
}

/// The Trash mailbox of a `Mailbox/get` result, or the error that there is none.
pub fn trash_from_list(data: &JsonValue) -> (r: Result<String, Error>)
    ensures
        trash_outcome(data@, r),
{
    let found = match data.get("list") {
        Some(l) => match l.as_array() {
            Some(ms) => {
                assert(views(ms@) =~= l@->Arr_0);
                find_mailbox_id_by_role(ms.as_slice(), "trash")
            },
            None => None,
        },
        None => None,
    };
    match found {
        Some(id) => Ok(id),
        None => Err(Error::jmap("Mailbox/get", "trash mailbox not found")),
    }
}

impl DeleteEmail {
    /// The id of the account's trash mailbox: one `Mailbox/get`, then the first mailbox
    /// whose role is `trash` (see `trash_outcome`).
    fn resolve_trash_id<T: HttpTransport>(&self, ctx: &Context, t: &mut Exchange<T>) -> (r: Result<String, Error>)
        ensures
            single_sent(ctx.jmap, old(t).log(), final(t).log(), "urn:ietf:params:jmap:mail"@, "Mailbox/get"@,
                Jv::Obj(map!["accountId"@ => Jv::Str(ctx.account_id@)])),
            match single_ok("Mailbox/get"@, last_reply(final(t).log())) {
                Some(j) => trash_outcome(j, r),
                None => (r matches Err(e) && single_failed("Mailbox/get"@, last_reply(final(t).log()), e)),
            },
    {
        let args = JsonValue::object(JsonObject::new().with("accountId", JsonValue::string(ctx.account_id.as_str())));
        assert(args@->Obj_0 =~= map!["accountId"@ => Jv::Str(ctx.account_id@)]);
        match ctx.jmap.call_one(t, "urn:ietf:params:jmap:mail", "Mailbox/get", args) {
            Ok(data) => trash_from_list(&data),
            Err(e) => Err(e),
        }
    }
}

impl DeleteEmail {
    /// What running this action does, the exchanges it makes taking the log from
    /// `before` to `after` (see `run`).
    pub open spec fn outcome(self, ctx: Context, before: Seq<Exchanged>, after: Seq<Exchanged>, r: Result<JsonValue, Error>) -> bool {
        &&& (self.email_ids@.len() == 0 ==> (r matches Err(e) && refused(e, "emailIds is required"@)
            && after == before))
        &&& (self.email_ids@.len() > 0 && self.permanent ==> email_set_call(ctx.jmap, before, after,
            Jv::Obj(map!["accountId"@ => Jv::Str(ctx.account_id@), "destroy"@ => str_arr(crate::json::texts(self.email_ids@))]),
            "deleted"@, true, r))
        &&& (self.email_ids@.len() > 0 && !self.permanent ==> ({
            let mid = after.take(before.len() + 1int);
            &&& after.len() >= before.len() + 1
            &&& single_sent(ctx.jmap, before, mid, "urn:ietf:params:jmap:mail"@, "Mailbox/get"@,
                Jv::Obj(map!["accountId"@ => Jv::Str(ctx.account_id@)]))
            &&& match single_ok("Mailbox/get"@, last_reply(mid)) {
                Some(j) => match trash_of(j) {
                    Some(trash) => email_set_call(ctx.jmap, mid, after, update_args(ctx.account_id@,
                        uniform_update(crate::json::texts(self.email_ids@), into_mailbox(trash))), "deleted"@, false, r),
                    None => after == mid && (r matches Err(Error::Jmap { method, message })
                        && method@ == "Mailbox/get"@ && message@ == "trash mailbox not found"@),
                },
                None => after == mid && (r matches Err(e) && single_failed("Mailbox/get"@, last_reply(mid), e)),
        }
        }))
    }
}

/// Deleting emails outright sends one `Email/set` that destroys exactly the emails given;
/// deleting them otherwise first looks up the mailboxes, then sends one `Email/set` that
/// puts every email given, and only those, in exactly the mailbox whose role is `trash`.
/// Either way the emails are counted as `deleted`.
pub proof fn law_delete_email_request(a: DeleteEmail, ctx: Context, before: Seq<Exchanged>, after: Seq<Exchanged>, r: Result<JsonValue, Error>)
    requires
        a.outcome(ctx, before, after, r),
        a.email_ids@.len() > 0,
    ensures
        a.permanent ==> exists|args: Jv| #[trigger] email_set_call(ctx.jmap, before, after, args, "deleted"@, true, r)
            && args->Obj_0["accountId"@] == Jv::Str(ctx.account_id@)
            && args->Obj_0["destroy"@] == str_arr(crate::json::texts(a.email_ids@))
            && !args->Obj_0.contains_key("update"@),
        !a.permanent ==> after.len() >= before.len() + 1 && ({
            let mid = after.take(before.len() + 1int);
            single_ok("Mailbox/get"@, last_reply(mid)) matches Some(j) ==> (trash_of(j) matches Some(trash)
                ==> exists|args: Jv| #[trigger] email_set_call(ctx.jmap, mid, after, args, "deleted"@, false, r)
                    && sets_each(args, ctx.account_id@, crate::json::texts(a.email_ids@),
                        Jv::Obj(map!["mailboxIds"@ => Jv::Obj(map![trash => Jv::Bool(true)])])))
        }),
{
    reveal_strlit("accountId");
    reveal_strlit("destroy");
    reveal_strlit("update");
    assert("accountId"@.len() != "destroy"@.len() && "destroy"@.len() != "update"@.len() && "accountId"@.len() != "update"@.len());
    let ids = crate::json::texts(a.email_ids@);
    if a.permanent {
        let args = Jv::Obj(map!["accountId"@ => Jv::Str(ctx.account_id@), "destroy"@ => str_arr(ids)]);
        assert(email_set_call(ctx.jmap, before, after, args, "deleted"@, true, r));
    } else {
        let mid = after.take(before.len() + 1int);
        assert(after.len() >= before.len() + 1);
        if single_ok("Mailbox/get"@, last_reply(mid)) is Some && trash_of(single_ok("Mailbox/get"@, last_reply(mid))->0) is Some {
            let j = single_ok("Mailbox/get"@, last_reply(mid))->0;
            let trash = trash_of(j)->0;
            lemma_update_args_set_each(ctx.account_id@, ids, into_mailbox(trash));
            let args = update_args(ctx.account_id@, uniform_update(ids, into_mailbox(trash)));
            assert(email_set_call(ctx.jmap, mid, after, args, "deleted"@, false, r));
            assert(sets_each(args, ctx.account_id@, ids, Jv::Obj(map!["mailboxIds"@ => Jv::Obj(map![trash => Jv::Bool(true)])])));
        }
    }
}

impl Action for DeleteEmail {
    fn run<T: HttpTransport>(&self, ctx: &Context, t: &mut Exchange<T>) -> (r: Result<JsonValue, Error>)
        ensures
            self.outcome(*ctx, old(t).log(), final(t).log(), r),
    {
        if self.email_ids.len() == 0 {
            return Err(Error::invalid("emailIds is required"));
        }
        if self.permanent {
            let ids = string_array_of(&self.email_ids);
            let args = JsonValue::object(JsonObject::new()
                .with("accountId", JsonValue::string(ctx.account_id.as_str()))
                .with("destroy", ids));
            assert(args@->Obj_0 =~= map!["accountId"@ => Jv::Str(ctx.account_id@), "destroy"@ => str_arr(crate::json::texts(self.email_ids@))]);
            return match ctx.jmap.call_one(t, "urn:ietf:params:jmap:mail", "Email/set", args) {
                Ok(data) => set_count_result(&data, "deleted", true),
                Err(e) => Err(e),
            };
        }
        let ghost before = t.log();
        let found = self.resolve_trash_id(ctx, t);
        let ghost mid = t.log();
        assert(mid.take(before.len() + 1int) =~= mid);
        let trash_id = match found {
            Ok(x) => x,
            Err(e) => return Err(e),
        };
        let patch = into_mailbox_patch(trash_id.as_str());
        let update = update_all(&self.email_ids, &patch);
        let args = update_args_of(ctx.account_id.as_str(), update);
        let res = ctx.jmap.call_one(t, "urn:ietf:params:jmap:mail", "Email/set", args);
        assert(t.log().take(before.len() + 1int) =~= mid);
        match res {
            Ok(data) => set_count_result(&data, "deleted", false),
            Err(e) => Err(e),
        }
    }
}

/// Emails whose flag to set or clear.
pub struct FlagEmail {
    pub email_ids: Vec<String>,
    pub flag: String,
    pub value: bool,
}

/// The JMAP keyword of a flag name.
pub open spec fn flag_keyword(flag: Seq<char>) -> Option<Seq<char>> {
    if flag == "seen"@ {
        Some("$seen"@)
    } else if flag == "flagged"@ {
        Some("$flagged"@)
    } else if flag == "answered"@ {
        Some("$answered"@)
    } else if flag == "draft"@ {
        Some("$draft"@)
    } else {
        None
    }
}

/// The JMAP keyword of each flag name (`seen`, `flagged`, `answered`, `draft`) is that
/// name after `$`, and no other name has a keyword; so distinct flags set distinct
/// keywords.
pub proof fn law_flag_keyword_is_dollar_name(f: Seq<char>, g: Seq<char>)
    ensures
        flag_keyword(f) matches Some(k) ==> k == "$"@ + f,
        (f == "seen"@ || f == "flagged"@ || f == "answered"@ || f == "draft"@) <==> flag_keyword(f) is Some,
        (flag_keyword(f) is Some && flag_keyword(f) == flag_keyword(g)) ==> f == g,
{
    reveal_strlit("seen");
    reveal_strlit("flagged");
    reveal_strlit("answered");
    reveal_strlit("draft");
    reveal_strlit("$seen");
    reveal_strlit("$flagged");
    reveal_strlit("$answered");
    reveal_strlit("$draft");
    reveal_strlit("$");
    assert("seen"@.len() != "flagged"@.len() && "seen"@.len() != "answered"@.len() && "seen"@.len() != "draft"@.len());
    assert("flagged"@.len() != "answered"@.len() && "flagged"@.len() != "draft"@.len() && "answered"@.len() != "draft"@.len());
    assert("$seen"@ =~= "$"@ + "seen"@);
    assert("$flagged"@ =~= "$"@ + "flagged"@);
    assert("$answered"@ =~= "$"@ + "answered"@);
    assert("$draft"@ =~= "$"@ + "draft"@);
    if flag_keyword(f) is Some && flag_keyword(f) == flag_keyword(g) {
        assert(("$"@ + f).skip(1) =~= f);
        assert(("$"@ + g).skip(1) =~= g);
    }
}

/// The JMAP keyword of a flag name: `seen`, `flagged`, `answered` or `draft`.
pub fn keyword_of(flag: &str) -> (r: Option<&'static str>)
    ensures
        match flag_keyword(flag@) {
            Some(k) => r matches Some(x) && x@ == k,
            None => r is None,
        },
{
    if text::str_eq(flag, "seen") {
        Some("$seen")
    } else if text::str_eq(flag, "flagged") {
        Some("$flagged")
    } else if text::str_eq(flag, "answered") {
        Some("$answered")
    } else if text::str_eq(flag, "draft") {
        Some("$draft")
    } else {
        None
    }
}

/// The patch that sets keyword `k` to `value`.
pub open spec fn flag_patch(k: Seq<char>, value: bool) -> Jv {
    Jv::Obj(map!["keywords/"@ + k => Jv::Bool(value)])
}

impl FlagEmail {
    /// What running this action does, the exchanges it makes taking the log from
    /// `before` to `after` (see `run`).
    pub open spec fn outcome(self, ctx: Context, before: Seq<Exchanged>, after: Seq<Exchanged>, r: Result<JsonValue, Error>) -> bool {
        &&& (self.email_ids@.len() == 0 ==> (r matches Err(e) && refused(e, "emailIds is required"@)))
        &&& (self.email_ids@.len() > 0 && self.flag@.len() == 0 ==> (r matches Err(e) && refused(e, "flag is required"@)))
        &&& (self.email_ids@.len() > 0 && self.flag@.len() > 0 && flag_keyword(self.flag@) is None
            ==> (r matches Err(e) && refused(e, "invalid flag: "@ + self.flag@)))
        &&& (self.email_ids@.len() == 0 || self.flag@.len() == 0 || flag_keyword(self.flag@) is None
            ==> after == before)
        &&& (self.email_ids@.len() > 0 && self.flag@.len() > 0 && flag_keyword(self.flag@) is Some ==> email_set_call(ctx.jmap,
            before, after, update_args(ctx.account_id@, uniform_update(crate::json::texts(self.email_ids@),
            flag_patch(flag_keyword(self.flag@)->0, self.value))), "updated"@, false, r))
    }
}

/// Flagging emails sends one `Email/set` that sets, on every email given and only those,
/// the keyword `$` followed by the flag's name to the value given, and counts them as
/// `updated`.
pub proof fn law_flag_email_request(a: FlagEmail, ctx: Context, before: Seq<Exchanged>, after: Seq<Exchanged>, r: Result<JsonValue, Error>)
    requires
        a.outcome(ctx, before, after, r),
        a.email_ids@.len() > 0,
        a.flag@ == "seen"@ || a.flag@ == "flagged"@ || a.flag@ == "answered"@ || a.flag@ == "draft"@,
    ensures
        exists|args: Jv| #[trigger] email_set_call(ctx.jmap, before, after, args, "updated"@, false, r)
            && sets_each(args, ctx.account_id@, crate::json::texts(a.email_ids@),
                Jv::Obj(map!["keywords/$"@ + a.flag@ => Jv::Bool(a.value)])),
{
    law_flag_keyword_is_dollar_name(a.flag@, a.flag@);
    reveal_strlit("keywords/");
    reveal_strlit("keywords/$");
    reveal_strlit("$");
    reveal_strlit("seen");
    reveal_strlit("flagged");
    reveal_strlit("answered");
    reveal_strlit("draft");
    let ids = crate::json::texts(a.email_ids@);
    let k = flag_keyword(a.flag@)->0;
    assert("keywords/"@ + k =~= "keywords/$"@ + a.flag@);
    assert(flag_patch(k, a.value) == Jv::Obj(map!["keywords/$"@ + a.flag@ => Jv::Bool(a.value)]));
    lemma_update_args_set_each(ctx.account_id@, ids, flag_patch(k, a.value));
    let args = update_args(ctx.account_id@, uniform_update(ids, flag_patch(k, a.value)));
    assert(email_set_call(ctx.jmap, before, after, args, "updated"@, false, r));
}

impl Action for FlagEmail {
    fn run<T: HttpTransport>(&self, ctx: &Context, t: &mut Exchange<T>) -> (r: Result<JsonValue, Error>)
        ensures
            self.outcome(*ctx, old(t).log(), final(t).log(), r),
    {
        if self.email_ids.len() == 0 {
            return Err(Error::invalid("emailIds is required"));
        }
        if self.flag.as_str().is_empty() {
            return Err(Error::invalid("flag is required"));
        }
        let keyword = match keyword_of(self.flag.as_str()) {
            Some(k) => k,
            None => return Err(Error::InvalidParams(text::concat("invalid flag: ", self.flag.as_str()))),
        };
        let path = text::concat("keywords/", keyword);
        proof { JsonValue::Bool(self.value).lemma_view(); }
        let patch = JsonValue::object(JsonObject::new().with(path.as_str(), JsonValue::Bool(self.value)));
        assert(patch@ == flag_patch(flag_keyword(self.flag@)->0, self.value)) by {
            assert(patch@->Obj_0 =~= flag_patch(flag_keyword(self.flag@)->0, self.value)->Obj_0);
        }
        let update = update_all(&self.email_ids, &patch);
        let args = update_args_of(ctx.account_id.as_str(), update);
        match ctx.jmap.call_one(t, "urn:ietf:params:jmap:mail", "Email/set", args) {
            Ok(data) => set_count_result(&data, "updated", false),
            Err(e) => Err(e),
        }
    }
}

// ---------------------------------------------------------------------------------------
// Tool definitions

/// The names and descriptions of the email tools.
pub open spec fn tool_list() -> Seq<(Seq<char>, Seq<char>)> {
    seq![
            ("get_emails"@, "Retrieve emails from a mailbox"@),
            ("search_emails"@, "Search emails with filters"@),
            ("get_email_body"@, "Get full body of a single email"@),
            ("send_email"@, "Compose and send an email"@),
            ("move_email"@, "Move emails between mailboxes"@),
            ("delete_email"@, "Delete emails (move to Trash or permanently delete)"@),
            ("flag_email"@, "Set/unset flags (keywords) on emails"@)
        ]
}

/// The property names and required fields of the email tools' schemas.
pub open spec fn tool_fields() -> Seq<(Seq<Seq<char>>, Seq<Seq<char>>)> {
    seq![
        (seq!["mailboxId"@, "mailboxName"@, "limit"@, "includeBody"@], seq![]),
        (seq!["keyword"@, "from"@, "to"@, "subject"@, "mailboxId"@, "hasAttachment"@, "after"@,
            "before"@, "limit"@, "includeBody"@], seq![]),
        (seq!["emailId"@, "format"@], seq!["emailId"@]),
        (seq!["to"@, "subject"@, "body"@, "cc"@, "bcc"@, "isHtml"@, "inReplyTo"@],
            seq!["to"@, "subject"@, "body"@]),
        (seq!["emailIds"@, "mailboxId"@], seq!["emailIds"@, "mailboxId"@]),
        (seq!["emailIds"@, "permanent"@], seq!["emailIds"@]),
        (seq!["emailIds"@, "flag"@, "value"@], seq!["emailIds"@, "flag"@, "value"@])
    ]
}

/// The declared types of the properties of the email tools' schemas.
pub open spec fn tool_types() -> Seq<Seq<(Seq<char>, Jv)>> {
    seq![
        seq![typed("mailboxId"@, "string"@),
            typed("mailboxName"@, "string"@),
            typed("limit"@, "integer"@),
            typed("includeBody"@, "boolean"@)],
        seq![typed("keyword"@, "string"@),
            typed("from"@, "string"@),
            typed("to"@, "string"@),
            typed("subject"@, "string"@),
            typed("mailboxId"@, "string"@),
            typed("hasAttachment"@, "boolean"@),
            typed("after"@, "string"@),
            typed("before"@, "string"@),
            typed("limit"@, "integer"@),
            typed("includeBody"@, "boolean"@)],
        seq![typed("emailId"@, "string"@), typed("format"@, "string"@)],
        seq![typed("to"@, "array"@),
            typed("subject"@, "string"@),
            typed("body"@, "string"@),
            typed("cc"@, "array"@),
            typed("bcc"@, "array"@),
            typed("isHtml"@, "boolean"@),
            typed("inReplyTo"@, "string"@)],
        seq![typed("emailIds"@, "array"@), typed("mailboxId"@, "string"@)],
        seq![typed("emailIds"@, "array"@), typed("permanent"@, "boolean"@)],
        seq![typed("emailIds"@, "array"@), typed("flag"@, "string"@), typed("value"@, "boolean"@)]
    ]
}

/// The descriptions of the properties of the email tools' schemas.
pub open spec fn tool_docs() -> Seq<Seq<(Seq<char>, Jv)>> {
    seq![
        seq![
            described("mailboxId"@, "Mailbox ID"@),
            described("mailboxName"@, "Mailbox name (resolved to ID)"@),
            described("limit"@, "Max results (default 20)"@),
            described("includeBody"@, "Include body content"@)
        ],
        seq![
            described("keyword"@, "Full-text search"@),
            described("from"@, "Sender address filter"@),
            described("to"@, "Recipient address filter"@),
            described("subject"@, "Subject filter"@),
            described("mailboxId"@, "Restrict to mailbox"@),
            described("hasAttachment"@, "Filter by attachment presence"@),
            described("after"@, "Date lower bound (YYYY-MM-DD)"@),
            described("before"@, "Date upper bound (YYYY-MM-DD)"@),
            described("limit"@, "Max results (default 20)"@),
            described("includeBody"@, "Include body content"@)
        ],
        seq![
            described("emailId"@, "Email ID"@),
            described("format"@, "text, html, or both (default text)"@)
        ],
        seq![
            described("to"@, "Recipient addresses"@),
            described("subject"@, "Email subject"@),
            described("body"@, "Email body"@),
            described("cc"@, "CC recipients"@),
            described("bcc"@, "BCC recipients"@),
            described("isHtml"@, "Body is HTML (default false)"@),
            described("inReplyTo"@, "Email ID being replied to"@)
        ],
        seq![
            described("emailIds"@, "Email IDs to move"@),
            described("mailboxId"@, "Destination mailbox ID"@)
        ],
        seq![
            described("emailIds"@, "Email IDs to delete"@),
            described("permanent"@, "Skip trash (default false)"@)
        ],
        seq![
            described("emailIds"@, "Email IDs"@),
            described("flag"@, "Flag: seen, flagged, answered, draft"@),
            described("value"@, "Set (true) or unset (false)"@)
        ]
    ]
}

/// The values the properties of the email tools' schemas are limited to.
pub open spec fn tool_enums() -> Seq<Seq<(Seq<char>, Jv)>> {
    seq![
        seq![
            unlimited("mailboxId"@),
            unlimited("mailboxName"@),
            unlimited("limit"@),
            unlimited("includeBody"@)
        ],
        seq![
            unlimited("keyword"@),
            unlimited("from"@),
            unlimited("to"@),
            unlimited("subject"@),
            unlimited("mailboxId"@),
            unlimited("hasAttachment"@),
            unlimited("after"@),
            unlimited("before"@),
            unlimited("limit"@),
            unlimited("includeBody"@)
        ],
        seq![unlimited("emailId"@), one_of("format"@, seq!["text"@, "html"@, "both"@])],
        seq![
            unlimited("to"@),
            unlimited("subject"@),
            unlimited("body"@),
            unlimited("cc"@),
            unlimited("bcc"@),
            unlimited("isHtml"@),
            unlimited("inReplyTo"@)
        ],
        seq![unlimited("emailIds"@), unlimited("mailboxId"@)],
        seq![unlimited("emailIds"@), unlimited("permanent"@)],
        seq![
            unlimited("emailIds"@),
            one_of("flag"@, seq!["seen"@, "flagged"@, "answered"@, "draft"@]),
            unlimited("value"@)
        ]
    ]
}

/// The email tools.
pub fn tools() -> (r: Vec<Tool>)
    ensures
        tool_heads(r@) == tool_list(),
        all_object_schemas(r@),
        schemas_declare(r@, tool_fields()),
        schemas_typed(r@, tool_types()),
        schemas_described(r@, tool_docs()),
        schemas_limited(r@, tool_enums()),
{
    let none: [&str; 0] = [];
    proof { assert(field_texts(none@) =~= Seq::<Seq<char>>::empty()); }
    let get_props = vec![
        ("mailboxId", prop("string", "Mailbox ID")),
        ("mailboxName", prop("string", "Mailbox name (resolved to ID)")),
        ("limit", prop("integer", "Max results (default 20)")),
        ("includeBody", prop("boolean", "Include body content")),
    ];
    proof {
        assert(prop_names(get_props@) =~= seq!["mailboxId"@, "mailboxName"@, "limit"@, "includeBody"@]);
        assert(prop_kinds(get_props@) =~= seq![typed("mailboxId"@, "string"@),
            typed("mailboxName"@, "string"@),
            typed("limit"@, "integer"@),
            typed("includeBody"@, "boolean"@)]);
        assert(prop_docs(get_props@) =~= seq![
            described("mailboxId"@, "Mailbox ID"@),
            described("mailboxName"@, "Mailbox name (resolved to ID)"@),
            described("limit"@, "Max results (default 20)"@),
            described("includeBody"@, "Include body content"@)
        ]);
        assert(prop_enums(get_props@) =~= seq![
            unlimited("mailboxId"@),
            unlimited("mailboxName"@),
            unlimited("limit"@),
            unlimited("includeBody"@)
        ]);
    }
    let get = Tool::new("get_emails", "Retrieve emails from a mailbox", schema(get_props, none.as_slice()));
    let search_props = vec![
        ("keyword", prop("string", "Full-text search")),
        ("from", prop("string", "Sender address filter")),
        ("to", prop("string", "Recipient address filter")),
        ("subject", prop("string", "Subject filter")),
        ("mailboxId", prop("string", "Restrict to mailbox")),
        ("hasAttachment", prop("boolean", "Filter by attachment presence")),
        ("after", prop("string", "Date lower bound (YYYY-MM-DD)")),
        ("before", prop("string", "Date upper bound (YYYY-MM-DD)")),
        ("limit", prop("integer", "Max results (default 20)")),
        ("includeBody", prop("boolean", "Include body content")),
    ];
    proof {
        assert(prop_names(search_props@) =~= seq!["keyword"@, "from"@, "to"@, "subject"@, "mailboxId"@,
            "hasAttachment"@, "after"@, "before"@, "limit"@, "includeBody"@]);
        assert(prop_kinds(search_props@) =~= seq![typed("keyword"@, "string"@),
            typed("from"@, "string"@),
            typed("to"@, "string"@),
            typed("subject"@, "string"@),
            typed("mailboxId"@, "string"@),
            typed("hasAttachment"@, "boolean"@),
            typed("after"@, "string"@),
            typed("before"@, "string"@),
            typed("limit"@, "integer"@),
            typed("includeBody"@, "boolean"@)]);
        assert(prop_docs(search_props@) =~= seq![
            described("keyword"@, "Full-text search"@),
            described("from"@, "Sender address filter"@),
            described("to"@, "Recipient address filter"@),
            described("subject"@, "Subject filter"@),
            described("mailboxId"@, "Restrict to mailbox"@),
            described("hasAttachment"@, "Filter by attachment presence"@),
            described("after"@, "Date lower bound (YYYY-MM-DD)"@),
            described("before"@, "Date upper bound (YYYY-MM-DD)"@),
            described("limit"@, "Max results (default 20)"@),
            described("includeBody"@, "Include body content"@)
        ]);
        assert(prop_enums(search_props@) =~= seq![
            unlimited("keyword"@),
            unlimited("from"@),
            unlimited("to"@),
            unlimited("subject"@),
            unlimited("mailboxId"@),
            unlimited("hasAttachment"@),
            unlimited("after"@),
            unlimited("before"@),
            unlimited("limit"@),
            unlimited("includeBody"@)
        ]);
    }
    let search = Tool::new("search_emails", "Search emails with filters", schema(search_props, none.as_slice()));
    let formats: [&str; 3] = ["text", "html", "both"];
    let body_required: [&str; 1] = ["emailId"];
    let body_props = vec![
        ("emailId", prop("string", "Email ID")),
        ("format", enum_prop("string", "text, html, or both (default text)", formats.as_slice())),
    ];
    proof {
        assert(prop_names(body_props@) =~= seq!["emailId"@, "format"@]);
        assert(prop_kinds(body_props@) =~= seq![typed("emailId"@, "string"@), typed("format"@, "string"@)]);
        assert(prop_docs(body_props@) =~= seq![
            described("emailId"@, "Email ID"@),
            described("format"@, "text, html, or both (default text)"@)
        ]);
        assert(field_texts(formats@) =~= seq!["text"@, "html"@, "both"@]);
        assert(prop_enums(body_props@) =~= seq![unlimited("emailId"@), one_of("format"@, seq!["text"@, "html"@, "both"@])]);
        assert(field_texts(body_required@) =~= seq!["emailId"@]);
    }
    let body = Tool::new("get_email_body", "Get full body of a single email", schema(body_props, body_required.as_slice()));
    let send_required: [&str; 3] = ["to", "subject", "body"];
    let send_props = vec![
        ("to", string_list_prop("Recipient addresses")),
        ("subject", prop("string", "Email subject")),
        ("body", prop("string", "Email body")),
        ("cc", string_list_prop("CC recipients")),
        ("bcc", string_list_prop("BCC recipients")),
        ("isHtml", prop("boolean", "Body is HTML (default false)")),
        ("inReplyTo", prop("string", "Email ID being replied to")),
    ];
    proof {
        assert(prop_names(send_props@) =~= seq!["to"@, "subject"@, "body"@, "cc"@, "bcc"@, "isHtml"@, "inReplyTo"@]);
        assert(prop_kinds(send_props@) =~= seq![typed("to"@, "array"@),
            typed("subject"@, "string"@),
            typed("body"@, "string"@),
            typed("cc"@, "array"@),
            typed("bcc"@, "array"@),
            typed("isHtml"@, "boolean"@),
            typed("inReplyTo"@, "string"@)]);
        assert(prop_docs(send_props@) =~= seq![
            described("to"@, "Recipient addresses"@),
            described("subject"@, "Email subject"@),
            described("body"@, "Email body"@),
            described("cc"@, "CC recipients"@),
            described("bcc"@, "BCC recipients"@),
            described("isHtml"@, "Body is HTML (default false)"@),
            described("inReplyTo"@, "Email ID being replied to"@)
        ]);
        assert(prop_enums(send_props@) =~= seq![
            unlimited("to"@),
            unlimited("subject"@),
            unlimited("body"@),
            unlimited("cc"@),
            unlimited("bcc"@),
            unlimited("isHtml"@),
            unlimited("inReplyTo"@)
        ]);
        assert(field_texts(send_required@) =~= seq!["to"@, "subject"@, "body"@]);
    }
    let send = Tool::new("send_email", "Compose and send an email", schema(send_props, send_required.as_slice()));
    let move_required: [&str; 2] = ["emailIds", "mailboxId"];
    let move_props = vec![
        ("emailIds", string_list_prop("Email IDs to move")),
        ("mailboxId", prop("string", "Destination mailbox ID")),
    ];
    proof {
        assert(prop_names(move_props@) =~= seq!["emailIds"@, "mailboxId"@]);
        assert(prop_kinds(move_props@) =~= seq![typed("emailIds"@, "array"@),
            typed("mailboxId"@, "string"@)]);
        assert(prop_docs(move_props@) =~= seq![
            described("emailIds"@, "Email IDs to move"@),
            described("mailboxId"@, "Destination mailbox ID"@)
        ]);
        assert(prop_enums(move_props@) =~= seq![unlimited("emailIds"@), unlimited("mailboxId"@)]);
        assert(field_texts(move_required@) =~= seq!["emailIds"@, "mailboxId"@]);
    }
    let mv = Tool::new("move_email", "Move emails between mailboxes", schema(move_props, move_required.as_slice()));
    let delete_required: [&str; 1] = ["emailIds"];
    let delete_props = vec![
        ("emailIds", string_list_prop("Email IDs to delete")),
        ("permanent", prop("boolean", "Skip trash (default false)")),
    ];
    proof {
        assert(prop_names(delete_props@) =~= seq!["emailIds"@, "permanent"@]);
        assert(prop_kinds(delete_props@) =~= seq![typed("emailIds"@, "array"@),
            typed("permanent"@, "boolean"@)]);
        assert(prop_docs(delete_props@) =~= seq![
            described("emailIds"@, "Email IDs to delete"@),
            described("permanent"@, "Skip trash (default false)"@)
        ]);
        assert(prop_enums(delete_props@) =~= seq![unlimited("emailIds"@), unlimited("permanent"@)]);
        assert(field_texts(delete_required@) =~= seq!["emailIds"@]);
    }
    let delete = Tool::new("delete_email", "Delete emails (move to Trash or permanently delete)", schema(delete_props, delete_required.as_slice()));
    let flags: [&str; 4] = ["seen", "flagged", "answered", "draft"];
    let flag_required: [&str; 3] = ["emailIds", "flag", "value"];
    let flag_props = vec![
        ("emailIds", string_list_prop("Email IDs")),
        ("flag", enum_prop("string", "Flag: seen, flagged, answered, draft", flags.as_slice())),
        ("value", prop("boolean", "Set (true) or unset (false)")),
    ];
    proof {
        assert(prop_names(flag_props@) =~= seq!["emailIds"@, "flag"@, "value"@]);
        assert(prop_kinds(flag_props@) =~= seq![typed("emailIds"@, "array"@),
            typed("flag"@, "string"@),
            typed("value"@, "boolean"@)]);
        assert(prop_docs(flag_props@) =~= seq![
            described("emailIds"@, "Email IDs"@),
            described("flag"@, "Flag: seen, flagged, answered, draft"@),
            described("value"@, "Set (true) or unset (false)"@)
        ]);
        assert(field_texts(flags@) =~= seq!["seen"@, "flagged"@, "answered"@, "draft"@]);
        assert(prop_enums(flag_props@) =~= seq![
            unlimited("emailIds"@),
            one_of("flag"@, seq!["seen"@, "flagged"@, "answered"@, "draft"@]),
            unlimited("value"@)
        ]);
        assert(field_texts(flag_required@) =~= seq!["emailIds"@, "flag"@, "value"@]);
    }
    let flag = Tool::new("flag_email", "Set/unset flags (keywords) on emails", schema(flag_props, flag_required.as_slice()));
    let r = vec![get, search, body, send, mv, delete, flag];
    assert(tool_heads(r@) =~= seq![
        ("get_emails"@, "Retrieve emails from a mailbox"@),
        ("search_emails"@, "Search emails with filters"@),
        ("get_email_body"@, "Get full body of a single email"@),
        ("send_email"@, "Compose and send an email"@),
        ("move_email"@, "Move emails between mailboxes"@),
        ("delete_email"@, "Delete emails (move to Trash or permanently delete)"@),
        ("flag_email"@, "Set/unset flags (keywords) on emails"@)
    ]);
    r
}

} // verus!
