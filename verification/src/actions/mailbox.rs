//! Mailbox tools: list, and create, rename or delete.

use vstd::prelude::*;

use crate::actions::{
    all_object_schemas, enum_prop, field_texts, prop, prop_names, prop_kinds, prop_docs, prop_enums, schemas_limited, one_of, unlimited, schemas_described, described, schema, schemas_declare, schemas_typed, typed, tool_heads, Action, Context,
};
use crate::error::Error;
use crate::jmap::client::{last_reply, single_failed, single_ok, single_sent, Exchange, HttpTransport, Exchanged};
use crate::jmap::mailbox::{mailboxid_texts, MailboxId};
use crate::jmap::{set_args, set_passed, set_read_from};
use crate::json::{member, views, JsonObject, JsonValue, Jv};
use crate::mcp::types::Tool;
use crate::text;

verus! {

/// The names and descriptions of the mailbox tools.
pub open spec fn tool_list() -> Seq<(Seq<char>, Seq<char>)> {
    seq![
            ("list_mailboxes"@, "List all mailboxes with metadata"@),
            ("manage_mailbox"@, "Create, rename, or delete mailboxes"@)
        ]
}

/// The property names and required fields of the mailbox tools' schemas.
pub open spec fn tool_fields() -> Seq<(Seq<Seq<char>>, Seq<Seq<char>>)> {
    seq![
        (seq!["role"@], seq![]),
        (seq!["action"@, "name"@, "mailboxId"@, "parentId"@], seq!["action"@])
    ]
}

/// The declared types of the properties of the mailbox tools' schemas.
pub open spec fn tool_types() -> Seq<Seq<(Seq<char>, Jv)>> {
    seq![
        seq![typed("role"@, "string"@)],
        seq![typed("action"@, "string"@),
            typed("name"@, "string"@),
            typed("mailboxId"@, "string"@),
            typed("parentId"@, "string"@)]
    ]
}

/// The descriptions of the properties of the mailbox tools' schemas.
pub open spec fn tool_docs() -> Seq<Seq<(Seq<char>, Jv)>> {
    seq![
        seq![described("role"@, "Filter by role (inbox, sent, drafts, trash, junk, archive)"@)],
        seq![
            described("action"@, "create, rename, or delete"@),
            described("name"@, "Mailbox name (required for create/rename)"@),
            described("mailboxId"@, "Mailbox ID (required for rename/delete)"@),
            described("parentId"@, "Parent mailbox ID for create"@)
        ]
    ]
}

/// The values the properties of the mailbox tools' schemas are limited to.
pub open spec fn tool_enums() -> Seq<Seq<(Seq<char>, Jv)>> {
    seq![
        seq![one_of("role"@, seq!["inbox"@, "sent"@, "drafts"@, "trash"@, "junk"@, "archive"@])],
        seq![
            one_of("action"@, seq!["create"@, "rename"@, "delete"@]),
            unlimited("name"@),
            unlimited("mailboxId"@),
            unlimited("parentId"@)
        ]
    ]
}

/// The mailbox tools.
pub fn tools() -> (r: Vec<Tool>)
    ensures
        tool_heads(r@) == tool_list(),
        all_object_schemas(r@),
        schemas_declare(r@, tool_fields()),
        schemas_typed(r@, tool_types()),
        schemas_described(r@, tool_docs()),
        schemas_limited(r@, tool_enums()),
{
    let none: [&str; 0] = [];
    let roles: [&str; 6] = ["inbox", "sent", "drafts", "trash", "junk", "archive"];
    let list_props = vec![("role", enum_prop("string", "Filter by role (inbox, sent, drafts, trash, junk, archive)", roles.as_slice()))];
    proof {
        assert(prop_names(list_props@) =~= seq!["role"@]);
        assert(prop_kinds(list_props@) =~= seq![typed("role"@, "string"@)]);
        assert(prop_docs(list_props@) =~= seq![described("role"@, "Filter by role (inbox, sent, drafts, trash, junk, archive)"@)]);
        assert(field_texts(roles@) =~= seq!["inbox"@, "sent"@, "drafts"@, "trash"@, "junk"@, "archive"@]);
        assert(prop_enums(list_props@) =~= seq![one_of("role"@, seq!["inbox"@, "sent"@, "drafts"@, "trash"@, "junk"@, "archive"@])]);
    }
    let list = Tool::new("list_mailboxes", "List all mailboxes with metadata", schema(list_props, none.as_slice()));
    let actions: [&str; 3] = ["create", "rename", "delete"];
    let required: [&str; 1] = ["action"];
    let manage_props = vec![
        ("action", enum_prop("string", "create, rename, or delete", actions.as_slice())),
        ("name", prop("string", "Mailbox name (required for create/rename)")),
        ("mailboxId", prop("string", "Mailbox ID (required for rename/delete)")),
        ("parentId", prop("string", "Parent mailbox ID for create")),
    ];
    proof {
        assert(prop_names(manage_props@) =~= seq!["action"@, "name"@, "mailboxId"@, "parentId"@]);
        assert(prop_kinds(manage_props@) =~= seq![typed("action"@, "string"@),
            typed("name"@, "string"@),
            typed("mailboxId"@, "string"@),
            typed("parentId"@, "string"@)]);
        assert(prop_docs(manage_props@) =~= seq![
            described("action"@, "create, rename, or delete"@),
            described("name"@, "Mailbox name (required for create/rename)"@),
            described("mailboxId"@, "Mailbox ID (required for rename/delete)"@),
            described("parentId"@, "Parent mailbox ID for create"@)
        ]);
        assert(field_texts(actions@) =~= seq!["create"@, "rename"@, "delete"@]);
        assert(prop_enums(manage_props@) =~= seq![
            one_of("action"@, seq!["create"@, "rename"@, "delete"@]),
            unlimited("name"@),
            unlimited("mailboxId"@),
            unlimited("parentId"@)
        ]);
        assert(field_texts(none@) =~= Seq::<Seq<char>>::empty());
        assert(field_texts(required@) =~= seq!["action"@]);
    }
    let manage = Tool::new("manage_mailbox", "Create, rename, or delete mailboxes", schema(manage_props, required.as_slice()));
    let r = vec![list, manage];
    assert(tool_heads(r@) =~= seq![
        ("list_mailboxes"@, "List all mailboxes with metadata"@),
        ("manage_mailbox"@, "Create, rename, or delete mailboxes"@)
    ]);
    r
}

/// Every mailbox of the account. The list is returned as the server sent it; the role
/// filter and the field selection belong to the view (`present::project_mailbox_list`).
pub struct ListMailboxes {
    pub role: String,
}

impl ListMailboxes {
    /// What running this action does, the exchanges it makes taking the log from
    /// `before` to `after` (see `run`).
    pub open spec fn outcome(self, ctx: Context, before: Seq<Exchanged>, after: Seq<Exchanged>, r: Result<JsonValue, Error>) -> bool {
        &&& (single_sent(ctx.jmap, before, after, "urn:ietf:params:jmap:mail"@, "Mailbox/get"@, Jv::Obj(map!["accountId"@ => Jv::Str(ctx.account_id@)])))
        &&& (match single_ok("Mailbox/get"@, last_reply(after)) {
            Some(j) => crate::jmap::list_passed(j, r),
            None => (r matches Err(e) && single_failed("Mailbox/get"@, last_reply(after), e)),
        })
    }
}

impl Action for ListMailboxes {
    fn run<T: HttpTransport>(&self, ctx: &Context, t: &mut Exchange<T>) -> (r: Result<JsonValue, Error>)
        ensures
            self.outcome(*ctx, old(t).log(), final(t).log(), r),
    {
        match ctx.jmap.mailbox_get(t, ctx.account_id.as_str()) {
            Ok(response) => Ok(JsonValue::array(response.list)),
            Err(e) => Err(e),
        }
    }
}

/// Create, rename or delete a mailbox: each variant carries exactly what its operation
/// needs.
#[derive(Debug)]
pub enum ManageMailbox {
    Create { name: String, parent_id: String },
    Rename { mailbox_id: String, name: String },
    Delete { mailbox_id: String },
}

/// Whether `r` is the refusal `InvalidParams(msg)`.
pub open spec fn refused_with(r: Result<ManageMailbox, Error>, msg: Seq<char>) -> bool {
    r matches Err(Error::InvalidParams(m)) && m@ == msg
}

/// The creation key of a new mailbox in a `Mailbox/set` create map.
pub open spec fn create_key() -> Seq<char> {
    "new-mailbox"@
}

/// The three operation names are distinct and not empty.
proof fn lemma_operation_names()
    ensures
        "create"@ != "rename"@,
        "create"@ != "delete"@,
        "rename"@ != "delete"@,
        "create"@.len() > 0,
        "rename"@.len() > 0,
        "delete"@.len() > 0,
{
    reveal_strlit("create");
    reveal_strlit("rename");
    reveal_strlit("delete");
    assert("create"@[0] == 'c');
    assert("rename"@[0] == 'r');
    assert("delete"@[0] == 'd');
}

impl ManageMailbox {
    /// Read the `manage_mailbox` arguments into an operation, refusing one whose required
    /// fields are missing.
    pub fn parse(action: &str, name: String, mailbox_id: String, parent_id: String) -> (r: Result<ManageMailbox, Error>)
        ensures
            action@ == "create"@ ==> if name@.len() == 0 {
                refused_with(r, "name is required for create"@)
            } else {
                r matches Ok(ManageMailbox::Create { name: n, parent_id: p }) && n == name && p == parent_id
            },
            action@ == "rename"@ ==> if mailbox_id@.len() == 0 {
                refused_with(r, "mailboxId is required for rename"@)
            } else if name@.len() == 0 {
                refused_with(r, "name is required for rename"@)
            } else {
                r matches Ok(ManageMailbox::Rename { mailbox_id: m, name: n }) && m == mailbox_id && n == name
            },
            action@ == "delete"@ ==> if mailbox_id@.len() == 0 {
                refused_with(r, "mailboxId is required for delete"@)
            } else {
                r matches Ok(ManageMailbox::Delete { mailbox_id: m }) && m == mailbox_id
            },
            action@.len() == 0 ==> refused_with(r, "action is required"@),
            action@.len() > 0 && action@ != "create"@ && action@ != "rename"@ && action@ != "delete"@
                ==> refused_with(r, "action must be create, rename, or delete"@),
    {
        proof { lemma_operation_names(); }
        if text::str_eq(action, "create") {
            if name.as_str().is_empty() {
                return Err(Error::invalid("name is required for create"));
            }
            Ok(ManageMailbox::Create { name, parent_id })
        } else if text::str_eq(action, "rename") {
            if mailbox_id.as_str().is_empty() {
                return Err(Error::invalid("mailboxId is required for rename"));
            }
            if name.as_str().is_empty() {
                return Err(Error::invalid("name is required for rename"));
            }
            Ok(ManageMailbox::Rename { mailbox_id, name })
        } else if text::str_eq(action, "delete") {
            if mailbox_id.as_str().is_empty() {
                return Err(Error::invalid("mailboxId is required for delete"));
            }
            Ok(ManageMailbox::Delete { mailbox_id })
        } else if action.is_empty() {
            Err(Error::invalid("action is required"))
        } else {
            Err(Error::invalid("action must be create, rename, or delete"))
        }
    }

    /// The mailbox the operation affected: for a create, the id of the created mailbox in
    /// the `Mailbox/set` result (if any); otherwise the id the operation named.
    pub fn resolved_id(&self, data: &JsonValue) -> (r: Option<String>)
        ensures
            match self {
                ManageMailbox::Create { .. } => match member(data@, "created"@) {
                    Some(c) => match member(c, create_key()) {
                        Some(x) => match member(x, "id"@) {
                            Some(Jv::Str(id)) => r matches Some(s) && s@ == id,
                            _ => r is None,
                        },
                        None => r is None,
                    },
                    None => r is None,
                },
                ManageMailbox::Rename { mailbox_id, .. } => r matches Some(s) && s@ == mailbox_id@,
                ManageMailbox::Delete { mailbox_id } => r matches Some(s) && s@ == mailbox_id@,
            },
    {
        match self {
            ManageMailbox::Create { .. } => {
                let c = data.get("created")?;
                let x = c.get("new-mailbox")?;
                let id = x.get("id")?;
                proof { id.lemma_view(); }
                let s = id.as_str()?;
                Some(text::own(s))
            },
            ManageMailbox::Rename { mailbox_id, .. } => Some(mailbox_id.clone()),
            ManageMailbox::Delete { mailbox_id } => Some(mailbox_id.clone()),
        }
    }
}

/// The arguments of the `Mailbox/set` an operation makes.
pub open spec fn manage_args(m: ManageMailbox, account_id: Seq<char>) -> Jv {
    match m {
        ManageMailbox::Create { name, parent_id } => {
            let o = map!["name"@ => Jv::Str(name@)];
            let o = if parent_id@.len() > 0 { o.insert("parentId"@, Jv::Str(parent_id@)) } else { o };
            set_args(account_id, Some(Jv::Obj(map![create_key() => Jv::Obj(o)])), None, Seq::empty())
        },
        ManageMailbox::Rename { mailbox_id, name } => set_args(account_id, None,
            Some(Jv::Obj(map![mailbox_id@ => Jv::Obj(map!["name"@ => Jv::Str(name@)])])), Seq::empty()),
        ManageMailbox::Delete { mailbox_id } => set_args(account_id, None, None, seq![mailbox_id@]),
    }
}

/// Each mailbox operation asks for its own change and only that: a create creates one
/// mailbox with the name given (under the parent given, if any); a rename updates only
/// the mailbox given, setting its name; a delete destroys only the mailbox given. All in
/// the account given.
pub proof fn law_manage_args(m: ManageMailbox, account_id: Seq<char>)
    ensures
        ({
            let a = manage_args(m, account_id)->Obj_0;
            &&& a["accountId"@] == Jv::Str(account_id)
            &&& a.contains_key("create"@) == (m is Create)
            &&& a.contains_key("update"@) == (m is Rename)
            &&& a.contains_key("destroy"@) == (m is Delete)
            &&& (m matches ManageMailbox::Create { name, parent_id } ==> ({
                let c = a["create"@]->Obj_0;
                &&& c.dom().len() == 1
                &&& exists|k: Seq<char>| #[trigger] c.contains_key(k)
                    && c[k]->Obj_0["name"@] == Jv::Str(name@)
                    && c[k]->Obj_0.contains_key("parentId"@) == (parent_id@.len() > 0)
                    && (parent_id@.len() > 0 ==> c[k]->Obj_0["parentId"@] == Jv::Str(parent_id@))
            }))
            &&& (m matches ManageMailbox::Rename { mailbox_id, name } ==>
                a["update"@] == Jv::Obj(map![mailbox_id@ => Jv::Obj(map!["name"@ => Jv::Str(name@)])]))
            &&& (m matches ManageMailbox::Delete { mailbox_id } ==> a["destroy"@] == Jv::Arr(seq![Jv::Str(mailbox_id@)]))
        }),
{
    reveal_strlit("accountId");
    reveal_strlit("create");
    reveal_strlit("update");
    reveal_strlit("destroy");
    reveal_strlit("name");
    reveal_strlit("parentId");
    assert("accountId"@.len() != "create"@.len() && "accountId"@.len() != "update"@.len() && "accountId"@.len() != "destroy"@.len());
    assert("create"@[0] != "update"@[0] && "create"@.len() != "destroy"@.len() && "update"@.len() != "destroy"@.len());
    assert("name"@.len() != "parentId"@.len());
    match m {
        ManageMailbox::Create { name, parent_id } => {
            let c = manage_args(m, account_id)->Obj_0["create"@]->Obj_0;
            assert(c.dom() =~= set![create_key()]);
            assert(c.contains_key(create_key()));
        },
        ManageMailbox::Delete { mailbox_id } => {
            assert(seq![mailbox_id@].map_values(|s: Seq<char>| Jv::Str(s)) =~= seq![Jv::Str(mailbox_id@)]);
        },
        _ => {},
    }
}

impl ManageMailbox {
    /// What running this action does, the exchanges it makes taking the log from
    /// `before` to `after` (see `run`).
    pub open spec fn outcome(self, ctx: Context, before: Seq<Exchanged>, after: Seq<Exchanged>, r: Result<JsonValue, Error>) -> bool {
        &&& (single_sent(ctx.jmap, before, after, "urn:ietf:params:jmap:mail"@, "Mailbox/set"@,
            manage_args(self, ctx.account_id@)))
        &&& (match single_ok("Mailbox/set"@, last_reply(after)) {
            Some(j) => set_passed("Mailbox/set"@, j, r),
            None => (r matches Err(e) && single_failed("Mailbox/set"@, last_reply(after), e)),
        })
    }
}

impl Action for ManageMailbox {
    /// Apply the operation with a single `Mailbox/set` and return its response as the
    /// server sent it; a partial failure is an error.
    fn run<T: HttpTransport>(&self, ctx: &Context, t: &mut Exchange<T>) -> (r: Result<JsonValue, Error>)
        ensures
            self.outcome(*ctx, old(t).log(), final(t).log(), r),
    {
        let account = ctx.account_id.as_str();
        let none: [MailboxId; 0] = [];
        proof { assert(mailboxid_texts(none@) =~= Seq::<Seq<char>>::empty()); }
        let result = match self {
            ManageMailbox::Create { name, parent_id } => {
                let mut obj = JsonObject::new().with("name", JsonValue::string(name.as_str()));
                assert(obj@ =~= map!["name"@ => Jv::Str(name@)]);
                if !parent_id.as_str().is_empty() {
                    obj.insert(text::own("parentId"), JsonValue::string(parent_id.as_str()));
                }
                let inner = JsonValue::object(obj);
                let create = JsonValue::object(JsonObject::new().with("new-mailbox", inner));
                assert(create@->Obj_0 =~= map![create_key() => inner@]);
                ctx.jmap.mailbox_set(t, account, Some(create), None, none.as_slice())
            },
            ManageMailbox::Rename { mailbox_id, name } => {
                let patch = JsonValue::object(JsonObject::new().with("name", JsonValue::string(name.as_str())));
                assert(patch@->Obj_0 =~= map!["name"@ => Jv::Str(name@)]);
                let update = JsonValue::object(JsonObject::new().with(mailbox_id.as_str(), patch));
                assert(update@->Obj_0 =~= map![mailbox_id@ => patch@]);
                ctx.jmap.mailbox_set(t, account, None, Some(update), none.as_slice())
            },
            ManageMailbox::Delete { mailbox_id } => {
                let ids = vec![MailboxId(mailbox_id.clone())];
                assert(mailboxid_texts(ids@) =~= seq![mailbox_id@]);
                ctx.jmap.mailbox_set(t, account, None, None, ids.as_slice())
            },
        };
        let response = match result {
            Ok(x) => x,
            Err(e) => return Err(e),
        };
        match response.check_errors("Mailbox/set") {
            Ok(_) => {},
            Err(e) => return Err(e),
        }
        let v = response.to_json();
        assert(set_read_from(response, single_ok("Mailbox/set"@, last_reply(t.log()))->0));
        Ok(v)
    }
}

} // verus!
