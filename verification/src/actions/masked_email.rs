//! Masked email tools: list, create, and change the state of forwarding addresses.

use vstd::prelude::*;

use crate::actions::{all_object_schemas, field_texts, prop, prop_names, prop_kinds, prop_docs, prop_enums, schemas_limited, one_of, unlimited, schemas_described, described, schema, schemas_declare, schemas_typed, typed, tool_heads, Action, Context};
use crate::error::Error;
use crate::jmap::client::{last_reply, single_failed, single_ok, single_sent, Exchange, HttpTransport, Exchanged};
use crate::jmap::masked_email::MaskedEmailId;
use crate::json::{JsonObject, JsonValue, Jv};
use crate::mcp::types::Tool;
use crate::present::{state_label, MaskedEmailState};
use crate::text;

verus! {

/// The names and descriptions of the masked email tools.
pub open spec fn tool_list() -> Seq<(Seq<char>, Seq<char>)> {
    seq![
            ("list_masked_emails"@, "List all masked (disposable) email addresses"@),
            ("create_masked_email"@, "Create a new masked email address"@),
            ("update_masked_email"@, "Enable, disable, or delete a masked email address"@)
        ]
}

/// The property names and required fields of the masked email tools' schemas.
pub open spec fn tool_fields() -> Seq<(Seq<Seq<char>>, Seq<Seq<char>>)> {
    seq![
        (seq!["state"@], seq![]),
        (seq!["forDomain"@, "description"@, "emailPrefix"@], seq![]),
        (seq!["id"@, "state"@], seq!["id"@, "state"@])
    ]
}

/// The declared types of the properties of the masked email tools' schemas.
pub open spec fn tool_types() -> Seq<Seq<(Seq<char>, Jv)>> {
    seq![
        seq![typed("state"@, "string"@)],
        seq![typed("forDomain"@, "string"@),
            typed("description"@, "string"@),
            typed("emailPrefix"@, "string"@)],
        seq![typed("id"@, "string"@), typed("state"@, "string"@)]
    ]
}

/// The descriptions of the properties of the masked email tools' schemas.
pub open spec fn tool_docs() -> Seq<Seq<(Seq<char>, Jv)>> {
    seq![
        seq![described("state"@, "Filter: pending, enabled, disabled, deleted"@)],
        seq![
            described("forDomain"@, "Domain this address is for"@),
            described("description"@, "Human-readable label"@),
            described("emailPrefix"@, "Preferred prefix for the address"@)
        ],
        seq![
            described("id"@, "Masked email ID"@),
            described("state"@, "New state: enabled, disabled, deleted"@)
        ]
    ]
}

/// The values the properties of the masked email tools' schemas are limited to.
pub open spec fn tool_enums() -> Seq<Seq<(Seq<char>, Jv)>> {
    seq![
        seq![unlimited("state"@)],
        seq![unlimited("forDomain"@), unlimited("description"@), unlimited("emailPrefix"@)],
        seq![unlimited("id"@), unlimited("state"@)]
    ]
}

/// The masked email tools.
pub fn tools() -> (r: Vec<Tool>)
    ensures
        tool_heads(r@) == tool_list(),
        all_object_schemas(r@),
        schemas_declare(r@, tool_fields()),
        schemas_typed(r@, tool_types()),
        schemas_described(r@, tool_docs()),
        schemas_limited(r@, tool_enums()),
{
    let none: [&str; 0] = [];
    let list_props = vec![("state", prop("string", "Filter: pending, enabled, disabled, deleted"))];
    proof {
        assert(prop_names(list_props@) =~= seq!["state"@]);
        assert(prop_kinds(list_props@) =~= seq![typed("state"@, "string"@)]);
        assert(prop_docs(list_props@) =~= seq![described("state"@, "Filter: pending, enabled, disabled, deleted"@)]);
        assert(prop_enums(list_props@) =~= seq![unlimited("state"@)]);
    }
    let list = Tool::new("list_masked_emails", "List all masked (disposable) email addresses", schema(list_props, none.as_slice()));
    let create_props = vec![
        ("forDomain", prop("string", "Domain this address is for")),
        ("description", prop("string", "Human-readable label")),
        ("emailPrefix", prop("string", "Preferred prefix for the address")),
    ];
    proof {
        assert(prop_names(create_props@) =~= seq!["forDomain"@, "description"@, "emailPrefix"@]);
        assert(prop_kinds(create_props@) =~= seq![typed("forDomain"@, "string"@),
            typed("description"@, "string"@),
            typed("emailPrefix"@, "string"@)]);
        assert(prop_docs(create_props@) =~= seq![
            described("forDomain"@, "Domain this address is for"@),
            described("description"@, "Human-readable label"@),
            described("emailPrefix"@, "Preferred prefix for the address"@)
        ]);
        assert(prop_enums(create_props@) =~= seq![unlimited("forDomain"@), unlimited("description"@), unlimited("emailPrefix"@)]);
    }
    let create = Tool::new("create_masked_email", "Create a new masked email address", schema(create_props, none.as_slice()));
    let required: [&str; 2] = ["id", "state"];
    let update_props = vec![
        ("id", prop("string", "Masked email ID")),
        ("state", prop("string", "New state: enabled, disabled, deleted")),
    ];
    proof {
        assert(prop_names(update_props@) =~= seq!["id"@, "state"@]);
        assert(prop_kinds(update_props@) =~= seq![typed("id"@, "string"@), typed("state"@, "string"@)]);
        assert(prop_docs(update_props@) =~= seq![
            described("id"@, "Masked email ID"@),
            described("state"@, "New state: enabled, disabled, deleted"@)
        ]);
        assert(prop_enums(update_props@) =~= seq![unlimited("id"@), unlimited("state"@)]);
        assert(field_texts(none@) =~= Seq::<Seq<char>>::empty());
        assert(field_texts(required@) =~= seq!["id"@, "state"@]);
    }
    let update = Tool::new("update_masked_email", "Enable, disable, or delete a masked email address", schema(update_props, required.as_slice()));
    let r = vec![list, create, update];
    assert(tool_heads(r@) =~= seq![
        ("list_masked_emails"@, "List all masked (disposable) email addresses"@),
        ("create_masked_email"@, "Create a new masked email address"@),
        ("update_masked_email"@, "Enable, disable, or delete a masked email address"@)
    ]);
    r
}

/// Every masked email, as the server sent it; the state filter and the field selection
/// belong to the view (`present::project_masked_email_list`).
pub struct ListMaskedEmails {
    pub state: Option<MaskedEmailState>,
}

impl ListMaskedEmails {
    /// What running this action does, the exchanges it makes taking the log from
    /// `before` to `after` (see `run`).
    pub open spec fn outcome(self, ctx: Context, before: Seq<Exchanged>, after: Seq<Exchanged>, r: Result<JsonValue, Error>) -> bool {
        &&& (single_sent(ctx.jmap, before, after, "https://www.fastmail.com/dev/maskedemail"@, "MaskedEmail/get"@, Jv::Obj(map!["accountId"@ => Jv::Str(ctx.account_id@)])))
        &&& (match single_ok("MaskedEmail/get"@, last_reply(after)) {
            Some(j) => crate::jmap::list_passed(j, r),
            None => (r matches Err(e) && single_failed("MaskedEmail/get"@, last_reply(after), e)),
        })
    }
}

impl Action for ListMaskedEmails {
    fn run<T: HttpTransport>(&self, ctx: &Context, t: &mut Exchange<T>) -> (r: Result<JsonValue, Error>)
        ensures
            self.outcome(*ctx, old(t).log(), final(t).log(), r),
    {
        match ctx.jmap.masked_email_get(t, ctx.account_id.as_str()) {
            Ok(response) => Ok(JsonValue::array(response.list)),
            Err(e) => Err(e),
        }
    }
}

/// A new masked email.
pub struct CreateMaskedEmail {
    pub for_domain: String,
    pub description: String,
    pub email_prefix: String,
}

/// The object a create asks for: enabled, with each given detail.
pub open spec fn masked_create_object(c: CreateMaskedEmail) -> Jv {
    let m0 = map!["state"@ => Jv::Str("enabled"@)];
    let m1 = crate::actions::email::with_text(m0, "forDomain"@, c.for_domain@);
    let m2 = crate::actions::email::with_text(m1, "description"@, c.description@);
    Jv::Obj(crate::actions::email::with_text(m2, "emailPrefix"@, c.email_prefix@))
}

/// A new masked email is asked for enabled, with each detail given under its own key:
/// the domain under `forDomain`, the description under `description`, the prefix under
/// `emailPrefix`; a detail not given is left out.
pub proof fn law_masked_create_object(c: CreateMaskedEmail)
    ensures
        ({
            let m = masked_create_object(c)->Obj_0;
            &&& m["state"@] == Jv::Str("enabled"@)
            &&& m.contains_key("forDomain"@) == (c.for_domain@.len() > 0)
            &&& m.contains_key("description"@) == (c.description@.len() > 0)
            &&& m.contains_key("emailPrefix"@) == (c.email_prefix@.len() > 0)
            &&& c.for_domain@.len() > 0 ==> m["forDomain"@] == Jv::Str(c.for_domain@)
            &&& c.description@.len() > 0 ==> m["description"@] == Jv::Str(c.description@)
            &&& c.email_prefix@.len() > 0 ==> m["emailPrefix"@] == Jv::Str(c.email_prefix@)
        }),
{
    reveal_strlit("state");
    reveal_strlit("forDomain");
    reveal_strlit("description");
    reveal_strlit("emailPrefix");
    assert("state"@.len() != "forDomain"@.len() && "state"@.len() != "description"@.len() && "state"@.len() != "emailPrefix"@.len());
    assert("forDomain"@.len() != "description"@.len() && "forDomain"@.len() != "emailPrefix"@.len());
    assert("description"@[0] != "emailPrefix"@[0]);
}

impl CreateMaskedEmail {
    /// The object to create (see `masked_create_object`).
    pub fn create_object(&self) -> (r: JsonValue)
        ensures
            r@ == masked_create_object(*self),
    {
        let mut o = JsonObject::new().with("state", JsonValue::string("enabled"));
        assert(o@ =~= map!["state"@ => Jv::Str("enabled"@)]);
        if !self.for_domain.as_str().is_empty() {
            o.insert(text::own("forDomain"), JsonValue::string(self.for_domain.as_str()));
        }
        if !self.description.as_str().is_empty() {
            o.insert(text::own("description"), JsonValue::string(self.description.as_str()));
        }
        if !self.email_prefix.as_str().is_empty() {
            o.insert(text::own("emailPrefix"), JsonValue::string(self.email_prefix.as_str()));
        }
        JsonValue::object(o)
    }
}

impl CreateMaskedEmail {
    /// What running this action does, the exchanges it makes taking the log from
    /// `before` to `after` (see `run`).
    pub open spec fn outcome(self, ctx: Context, before: Seq<Exchanged>, after: Seq<Exchanged>, r: Result<JsonValue, Error>) -> bool {
        &&& (single_sent(ctx.jmap, before, after, "https://www.fastmail.com/dev/maskedemail"@, "MaskedEmail/set"@, crate::jmap::set_args(ctx.account_id@, Some(Jv::Obj(map!["new-masked"@ => masked_create_object(self)])), None, Seq::empty())))
        &&& (match single_ok("MaskedEmail/set"@, last_reply(after)) {
            Some(j) => crate::jmap::set_passed("MaskedEmail/set"@, j, r),
            None => (r matches Err(e) && single_failed("MaskedEmail/set"@, last_reply(after), e)),
        })
    }
}

impl Action for CreateMaskedEmail {
    /// Create the address with one `MaskedEmail/set` and return its response as the server
    /// sent it; a partial failure is an error.
    fn run<T: HttpTransport>(&self, ctx: &Context, t: &mut Exchange<T>) -> (r: Result<JsonValue, Error>)
        ensures
            self.outcome(*ctx, old(t).log(), final(t).log(), r),
    {
        let inner = self.create_object();
        let create = JsonValue::object(JsonObject::new().with("new-masked", inner));
        assert(create@->Obj_0 =~= map!["new-masked"@ => masked_create_object(*self)]);
        let none: [MaskedEmailId; 0] = [];
        proof { assert(crate::jmap::masked_email::maskedemailid_texts(none@) =~= Seq::<Seq<char>>::empty()); }
        let response = match ctx.jmap.masked_email_set(t, ctx.account_id.as_str(), Some(create), None, none.as_slice()) {
            Ok(x) => x,
            Err(e) => return Err(e),
        };
        match response.check_errors("MaskedEmail/set") {
            Ok(_) => {},
            Err(e) => return Err(e),
        }
        let v = response.to_json();
        assert(crate::jmap::set_read_from(response, single_ok("MaskedEmail/set"@, last_reply(t.log()))->0));
        Ok(v)
    }
}

/// A new state for a masked email.
pub struct UpdateMaskedEmail {
    pub id: String,
    pub state: MaskedEmailState,
}

impl UpdateMaskedEmail {
    /// What running this action does, the exchanges it makes taking the log from
    /// `before` to `after` (see `run`).
    pub open spec fn outcome(self, ctx: Context, before: Seq<Exchanged>, after: Seq<Exchanged>, r: Result<JsonValue, Error>) -> bool {
        &&& (self.id@.len() == 0 ==> (r matches Err(Error::InvalidParams(m)) && m@ == "id is required"@
            && after == before))
        &&& (self.id@.len() > 0 ==> single_sent(ctx.jmap, before, after,
            "https://www.fastmail.com/dev/maskedemail"@, "MaskedEmail/set"@, crate::jmap::set_args(ctx.account_id@, None,
                Some(Jv::Obj(map![self.id@ => Jv::Obj(map!["state"@ => Jv::Str(state_label(self.state))])])), Seq::empty())))
        &&& (self.id@.len() > 0 ==> match single_ok("MaskedEmail/set"@, last_reply(after)) {
            Some(j) => crate::jmap::set_passed("MaskedEmail/set"@, j, r),
            None => (r matches Err(e) && single_failed("MaskedEmail/set"@, last_reply(after), e)),
        })
    }
}

impl Action for UpdateMaskedEmail {
    /// Change the state with one `MaskedEmail/set` and return its response as the server
    /// sent it; a partial failure is an error.
    fn run<T: HttpTransport>(&self, ctx: &Context, t: &mut Exchange<T>) -> (r: Result<JsonValue, Error>)
        ensures
            self.outcome(*ctx, old(t).log(), final(t).log(), r),
    {
        if self.id.as_str().is_empty() {
            return Err(Error::invalid("id is required"));
        }
        let patch = JsonValue::object(JsonObject::new().with("state", JsonValue::string(self.state.label())));
        assert(patch@->Obj_0 =~= map!["state"@ => Jv::Str(state_label(self.state))]);
        let update = JsonValue::object(JsonObject::new().with(self.id.as_str(), patch));
        assert(update@->Obj_0 =~= map![self.id@ => patch@]);
        let none: [MaskedEmailId; 0] = [];
        proof { assert(crate::jmap::masked_email::maskedemailid_texts(none@) =~= Seq::<Seq<char>>::empty()); }
        let response = match ctx.jmap.masked_email_set(t, ctx.account_id.as_str(), None, Some(update), none.as_slice()) {
            Ok(x) => x,
            Err(e) => return Err(e),
        };
        match response.check_errors("MaskedEmail/set") {
            Ok(_) => {},
            Err(e) => return Err(e),
        }
        let v = response.to_json();
        assert(crate::jmap::set_read_from(response, single_ok("MaskedEmail/set"@, last_reply(t.log()))->0));
        Ok(v)
    }
}

} // verus!
