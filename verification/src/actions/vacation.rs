//! Vacation tools: read and change the automatic reply.

use vstd::prelude::*;

use crate::actions::{all_object_schemas, field_texts, prop, prop_names, prop_kinds, prop_docs, prop_enums, schemas_limited, one_of, unlimited, schemas_described, described, schema, schemas_declare, schemas_typed, typed, tool_heads, Action, Context};
use crate::error::Error;
use crate::jmap::client::{last_reply, single_failed, single_ok, single_sent, Exchange, HttpTransport, Exchanged};
use crate::json::{JsonObject, JsonValue, Jv};
use crate::mcp::types::Tool;
use crate::present::{build_vacation_update, FieldChange};

verus! {

/// The names and descriptions of the vacation tools.
pub open spec fn tool_list() -> Seq<(Seq<char>, Seq<char>)> {
    seq![
            ("get_vacation_response"@, "Get the current vacation/auto-reply settings"@),
            ("set_vacation_response"@, "Enable, disable, or update the vacation auto-reply"@)
        ]
}

/// The property names and required fields of the vacation tools' schemas.
pub open spec fn tool_fields() -> Seq<(Seq<Seq<char>>, Seq<Seq<char>>)> {
    seq![
        (seq![], seq![]),
        (seq!["isEnabled"@, "fromDate"@, "toDate"@, "subject"@, "textBody"@, "htmlBody"@], seq!["isEnabled"@])
    ]
}

/// The declared types of the properties of the vacation tools' schemas.
pub open spec fn tool_types() -> Seq<Seq<(Seq<char>, Jv)>> {
    seq![
        Seq::empty(),
        seq![typed("isEnabled"@, "boolean"@),
            typed("fromDate"@, "string"@),
            typed("toDate"@, "string"@),
            typed("subject"@, "string"@),
            typed("textBody"@, "string"@),
            typed("htmlBody"@, "string"@)]
    ]
}

/// The descriptions of the properties of the vacation tools' schemas.
pub open spec fn tool_docs() -> Seq<Seq<(Seq<char>, Jv)>> {
    seq![
        Seq::<(Seq<char>, Jv)>::empty(),
        seq![
            described("isEnabled"@, "Enable or disable auto-reply"@),
            described("fromDate"@, "Start date (ISO 8601, UTC)"@),
            described("toDate"@, "End date (ISO 8601, UTC)"@),
            described("subject"@, "Auto-reply subject"@),
            described("textBody"@, "Plain text auto-reply body"@),
            described("htmlBody"@, "HTML auto-reply body"@)
        ]
    ]
}

/// The values the properties of the vacation tools' schemas are limited to.
pub open spec fn tool_enums() -> Seq<Seq<(Seq<char>, Jv)>> {
    seq![
        Seq::<(Seq<char>, Jv)>::empty(),
        seq![
            unlimited("isEnabled"@),
            unlimited("fromDate"@),
            unlimited("toDate"@),
            unlimited("subject"@),
            unlimited("textBody"@),
            unlimited("htmlBody"@)
        ]
    ]
}

/// The vacation tools.
pub fn tools() -> (r: Vec<Tool>)
    ensures
        tool_heads(r@) == tool_list(),
        all_object_schemas(r@),
        schemas_declare(r@, tool_fields()),
        schemas_typed(r@, tool_types()),
        schemas_described(r@, tool_docs()),
        schemas_limited(r@, tool_enums()),
{
    let none: [&str; 0] = [];
    let get_props: Vec<(&str, JsonValue)> = Vec::new();
    proof {
        assert(prop_names(get_props@) =~= Seq::<Seq<char>>::empty());
        assert(prop_kinds(get_props@) =~= Seq::<(Seq<char>, Jv)>::empty());
    }
    let get = Tool::new("get_vacation_response", "Get the current vacation/auto-reply settings", schema(get_props, none.as_slice()));
    let required: [&str; 1] = ["isEnabled"];
    let set_props = vec![
        ("isEnabled", prop("boolean", "Enable or disable auto-reply")),
        ("fromDate", prop("string", "Start date (ISO 8601, UTC)")),
        ("toDate", prop("string", "End date (ISO 8601, UTC)")),
        ("subject", prop("string", "Auto-reply subject")),
        ("textBody", prop("string", "Plain text auto-reply body")),
        ("htmlBody", prop("string", "HTML auto-reply body")),
    ];
    proof {
        assert(prop_names(set_props@) =~= seq!["isEnabled"@, "fromDate"@, "toDate"@, "subject"@, "textBody"@, "htmlBody"@]);
        assert(prop_docs(get_props@) =~= Seq::<(Seq<char>, Jv)>::empty());
        assert(prop_enums(get_props@) =~= Seq::<(Seq<char>, Jv)>::empty());
        assert(prop_kinds(set_props@) =~= seq![typed("isEnabled"@, "boolean"@),
            typed("fromDate"@, "string"@),
            typed("toDate"@, "string"@),
            typed("subject"@, "string"@),
            typed("textBody"@, "string"@),
            typed("htmlBody"@, "string"@)]);
        assert(prop_docs(set_props@) =~= seq![
            described("isEnabled"@, "Enable or disable auto-reply"@),
            described("fromDate"@, "Start date (ISO 8601, UTC)"@),
            described("toDate"@, "End date (ISO 8601, UTC)"@),
            described("subject"@, "Auto-reply subject"@),
            described("textBody"@, "Plain text auto-reply body"@),
            described("htmlBody"@, "HTML auto-reply body"@)
        ]);
        assert(prop_enums(set_props@) =~= seq![
            unlimited("isEnabled"@),
            unlimited("fromDate"@),
            unlimited("toDate"@),
            unlimited("subject"@),
            unlimited("textBody"@),
            unlimited("htmlBody"@)
        ]);
        assert(field_texts(none@) =~= Seq::<Seq<char>>::empty());
        assert(field_texts(required@) =~= seq!["isEnabled"@]);
    }
    let set = Tool::new("set_vacation_response", "Enable, disable, or update the vacation auto-reply", schema(set_props, required.as_slice()));
    let r = vec![get, set];
    assert(tool_heads(r@) =~= seq![
        ("get_vacation_response"@, "Get the current vacation/auto-reply settings"@),
        ("set_vacation_response"@, "Enable, disable, or update the vacation auto-reply"@)
    ]);
    r
}

/// The first object of a `/get` list, or an empty object.
pub fn first_or_empty(list: Vec<JsonValue>) -> (r: JsonValue)
    ensures
        list@.len() > 0 ==> r@ == list@[0]@,
        list@.len() == 0 ==> r@ == Jv::Obj(Map::empty()),
{
    let mut list = list;
    if list.len() > 0 {
        list.remove(0)
    } else {
        JsonValue::object(JsonObject::new())
    }
}

/// The vacation response singleton, as the server sent it (`{}` when there is none).
pub struct GetVacationResponse;

impl GetVacationResponse {
    /// What running this action does, the exchanges it makes taking the log from
    /// `before` to `after` (see `run`).
    pub open spec fn outcome(self, ctx: Context, before: Seq<Exchanged>, after: Seq<Exchanged>, r: Result<JsonValue, Error>) -> bool {
        &&& (single_sent(ctx.jmap, before, after, "urn:ietf:params:jmap:vacationresponse"@, "VacationResponse/get"@, Jv::Obj(map!["accountId"@ => Jv::Str(ctx.account_id@)])))
        &&& (match single_ok("VacationResponse/get"@, last_reply(after)) {
            Some(j) => crate::jmap::first_passed(j, r),
            None => (r matches Err(e) && single_failed("VacationResponse/get"@, last_reply(after), e)),
        })
    }
}

impl Action for GetVacationResponse {
    fn run<T: HttpTransport>(&self, ctx: &Context, t: &mut Exchange<T>) -> (r: Result<JsonValue, Error>)
        ensures
            self.outcome(*ctx, old(t).log(), final(t).log(), r),
    {
        match ctx.jmap.vacation_get(t, ctx.account_id.as_str()) {
            Ok(response) => Ok(first_or_empty(response.list)),
            Err(e) => Err(e),
        }
    }
}

/// A change of the vacation response: whether it is on, and each optional field.
pub struct SetVacationResponse {
    pub is_enabled: Option<bool>,
    pub from_date: FieldChange,
    pub to_date: FieldChange,
    pub subject: FieldChange,
    pub text_body: FieldChange,
    pub html_body: FieldChange,
}

impl Default for SetVacationResponse {
    fn default() -> (r: Self)
        ensures
            r.is_enabled is None,
            r.from_date == FieldChange::Keep,
            r.to_date == FieldChange::Keep,
            r.subject == FieldChange::Keep,
            r.text_body == FieldChange::Keep,
            r.html_body == FieldChange::Keep,
    {
        SetVacationResponse {
            is_enabled: None,
            from_date: FieldChange::Keep,
            to_date: FieldChange::Keep,
            subject: FieldChange::Keep,
            text_body: FieldChange::Keep,
            html_body: FieldChange::Keep,
        }
    }
}

/// What a `VacationResponse/set` result `j` gives: a JSON error for one of the wrong
/// shape; else its first partial failure; else its `updated` map.
pub open spec fn updated_outcome(j: Jv, r: Result<JsonValue, Error>) -> bool {
    if !crate::jmap::set_ok(j) {
        r matches Err(e) && e is Json
    } else {
        match crate::jmap::first_set_error(
            crate::json::obj_member(j->Obj_0, "notCreated"@)->0,
            crate::json::obj_member(j->Obj_0, "notUpdated"@)->0,
            crate::json::obj_member(j->Obj_0, "notDestroyed"@)->0,
        ) {
            Some(msg) => r matches Err(Error::Jmap { method: m, message: g }) && m@ == "VacationResponse/set"@ && g@ == msg,
            None => r matches Ok(v) && v@ == Jv::Obj(crate::json::obj_member(j->Obj_0, "updated"@)->0),
        }
    }
}

impl SetVacationResponse {
    /// What running this action does, the exchanges it makes taking the log from
    /// `before` to `after` (see `run`).
    pub open spec fn outcome(self, ctx: Context, before: Seq<Exchanged>, after: Seq<Exchanged>, r: Result<JsonValue, Error>) -> bool {
        &&& (self.is_enabled is None ==> (r matches Err(Error::InvalidParams(m)) && m@ == "isEnabled is required"@
            && after == before))
        &&& (self.is_enabled matches Some(b) ==> single_sent(ctx.jmap, before, after,
            "urn:ietf:params:jmap:vacationresponse"@, "VacationResponse/set"@,
            crate::jmap::vacation::vacation_set_args(ctx.account_id@, crate::present::vacation_update(b, self.from_date,
                self.to_date, self.subject, self.text_body, self.html_body))))
        &&& (self.is_enabled is Some ==> match single_ok("VacationResponse/set"@, last_reply(after)) {
            Some(j) => updated_outcome(j, r),
            None => (r matches Err(e) && single_failed("VacationResponse/set"@, last_reply(after), e)),
        })
    }
}

impl Action for SetVacationResponse {
    /// Patch the singleton and return the server's `updated` map; a partial failure is an
    /// error.
    fn run<T: HttpTransport>(&self, ctx: &Context, t: &mut Exchange<T>) -> (r: Result<JsonValue, Error>)
        ensures
            self.outcome(*ctx, old(t).log(), final(t).log(), r),
    {
        let is_enabled = match self.is_enabled {
            Some(b) => b,
            None => return Err(Error::invalid("isEnabled is required")),
        };
        let update = build_vacation_update(is_enabled, &self.from_date, &self.to_date, &self.subject, &self.text_body, &self.html_body);
        let response = match ctx.jmap.vacation_set(t, ctx.account_id.as_str(), update) {
            Ok(x) => x,
            Err(e) => return Err(e),
        };
        match response.check_errors("VacationResponse/set") {
            Ok(_) => {},
            Err(e) => return Err(e),
        }
        Ok(JsonValue::object(response.updated))
    }
}

} // verus!
