//! Presenters: project JMAP `Email` data into the shape the CLI and MCP emit. Each read
//! view owns the JMAP `properties` it requests and the projection applied to the result:
//! body part references resolve into inline strings, a `date` is synthesized from
//! `receivedAt`, and the raw `bodyValues` map is dropped.

use vstd::prelude::*;

use crate::actions::{field_texts, project_fields, project_fields_array, projection, str_member_of};
use crate::jmap::email::BodyFetch;
use crate::json::{member, views, JsonObject, JsonValue, Jv};
use crate::error::Error;
use crate::text;

verus! {

/// JMAP `Email` properties for a list/search row.
pub const EMAIL_LIST_PROPERTIES: [&'static str; 6] = ["id", "subject", "from", "to", "receivedAt", "preview"];

/// JMAP `Email` properties for a list/search row when bodies are requested: adds the body
/// part references and the raw `bodyValues` map the projection resolves against.
pub const EMAIL_LIST_BODY_PROPERTIES: [&'static str; 9] = [
    "id",
    "subject",
    "from",
    "to",
    "receivedAt",
    "preview",
    "textBody",
    "htmlBody",
    "bodyValues",
];

/// JMAP `Email` properties for a single-email body view.
pub const EMAIL_BODY_PROPERTIES: [&'static str; 8] = [
    "id",
    "subject",
    "from",
    "to",
    "receivedAt",
    "textBody",
    "htmlBody",
    "bodyValues",
];

/// The properties of a list/search row.
pub open spec fn list_props(include_body: bool) -> Seq<Seq<char>> {
    if include_body {
        seq!["id"@, "subject"@, "from"@, "to"@, "receivedAt"@, "preview"@, "textBody"@, "htmlBody"@, "bodyValues"@]
    } else {
        seq!["id"@, "subject"@, "from"@, "to"@, "receivedAt"@, "preview"@]
    }
}

/// The properties of a body view.
pub open spec fn body_props() -> Seq<Seq<char>> {
    seq!["id"@, "subject"@, "from"@, "to"@, "receivedAt"@, "textBody"@, "htmlBody"@, "bodyValues"@]
}

/// The `properties` an `Email/get` for a list/search view should request.
pub fn email_list_properties(include_body: bool) -> (r: &'static [&'static str])
    ensures
        field_texts(r@) == list_props(include_body),
{
    if include_body {
        let r: &'static [&'static str] = &EMAIL_LIST_BODY_PROPERTIES;
        assert(field_texts(r@) =~= list_props(include_body));
        r
    } else {
        let r: &'static [&'static str] = &EMAIL_LIST_PROPERTIES;
        assert(field_texts(r@) =~= list_props(include_body));
        r
    }
}

/// The `properties` an `Email/get` for a body view should request.
pub fn email_body_properties() -> (r: &'static [&'static str])
    ensures
        field_texts(r@) == body_props(),
{
    let r: &'static [&'static str] = &EMAIL_BODY_PROPERTIES;
    assert(field_texts(r@) =~= body_props());
    r
}

/// Body-value fetch flags for a list/search view: list bodies resolve text and HTML.
pub fn email_list_body_fetch(include_body: bool) -> (r: BodyFetch)
    ensures
        r.text == include_body,
        r.html == include_body,
        !r.all,
{
    BodyFetch { text: include_body, html: include_body, all: false }
}

/// The content a part-reference array designates: the `value` of the `bodyValues` entry
/// named by the first part's `partId`.
pub open spec fn resolved_part(body: Option<Jv>, body_values: Option<Jv>) -> Option<Jv> {
    match body {
        Some(Jv::Arr(parts)) => if parts.len() > 0 {
            match member(parts[0], "partId"@) {
                Some(Jv::Str(pid)) => match body_values {
                    Some(bv) => match member(bv, pid) {
                        Some(x) => member(x, "value"@),
                        None => None,
                    },
                    None => None,
                },
                _ => None,
            }
        } else {
            None
        },
        _ => None,
    }
}

/// The member `k` of `m`, if present.
pub open spec fn get(m: Map<Seq<char>, Jv>, k: Seq<char>) -> Option<Jv> {
    if m.contains_key(k) { Some(m[k]) } else { None }
}

/// `m` with `k` set to the resolved part, when there is one.
pub open spec fn with_resolved(m: Map<Seq<char>, Jv>, k: Seq<char>, bv: Option<Jv>) -> Map<Seq<char>, Jv> {
    match resolved_part(get(m, k), bv) {
        Some(c) => m.insert(k, c),
        None => m,
    }
}

/// The display shape of an email: `date` copied from `receivedAt`, `textBody` and
/// `htmlBody` resolved to their content, `bodyValues` dropped. A non-object is unchanged.
pub open spec fn display_email(v: Jv) -> Jv {
    match v {
        Jv::Obj(m) => {
            let m1 = if m.contains_key("receivedAt"@) { m.insert("date"@, m["receivedAt"@]) } else { m };
            let bv = get(m1, "bodyValues"@);
            let m2 = with_resolved(m1, "textBody"@, bv);
            let m3 = with_resolved(m2, "htmlBody"@, bv);
            Jv::Obj(m3.remove("bodyValues"@))
        },
        _ => v,
    }
}

/// Putting an email into display shape a second time changes nothing: `bodyValues` is
/// gone, so nothing more resolves, and `date` already holds `receivedAt`.
pub proof fn law_display_email_idempotent(v: Jv)
    ensures
        display_email(display_email(v)) == display_email(v),
{
    reveal_strlit("receivedAt");
    reveal_strlit("date");
    reveal_strlit("bodyValues");
    reveal_strlit("textBody");
    reveal_strlit("htmlBody");
    assert("receivedAt"@[0] != "date"@[0] && "receivedAt"@[0] != "bodyValues"@[0]);
    assert("receivedAt"@[0] != "textBody"@[0] && "receivedAt"@[0] != "htmlBody"@[0]);
    assert("date"@[0] != "bodyValues"@[0] && "date"@[0] != "textBody"@[0] && "date"@[0] != "htmlBody"@[0]);
    assert("bodyValues"@[0] != "textBody"@[0] && "bodyValues"@[0] != "htmlBody"@[0]);
    if let Jv::Obj(m) = v {
        let w = display_email(v)->Obj_0;
        assert(!w.contains_key("bodyValues"@));
        assert(get(w, "bodyValues"@) is None);
        if m.contains_key("receivedAt"@) {
            assert(w.contains_key("receivedAt"@) && w.contains_key("date"@) && w["date"@] == w["receivedAt"@]);
            assert(w.insert("date"@, w["receivedAt"@]) =~= w);
        } else {
            assert(!w.contains_key("receivedAt"@));
        }
        assert(display_email(Jv::Obj(w))->Obj_0 =~= w);
    }
}

/// The display shape of a list: each element in display shape; a non-array is unchanged.
pub open spec fn display_list(v: Jv) -> Jv {
    match v {
        Jv::Arr(a) => Jv::Arr(a.map_values(|e: Jv| display_email(e))),
        _ => v,
    }
}

/// The view of an optional value.
pub open spec fn opt_view(o: Option<&JsonValue>) -> Option<Jv> {
    match o {
        Some(b) => Some(b@),
        None => None,
    }
}

/// Resolve a part-reference array to its content string.
fn resolve_body_part(body: Option<&JsonValue>, body_values: Option<&JsonValue>) -> (r: Option<JsonValue>)
    ensures
        match r {
            Some(x) => resolved_part(opt_view(body), opt_view(body_values)) == Some(x@),
            None => resolved_part(opt_view(body), opt_view(body_values)) is None,
        },
{
    let b = body?;
    let parts = b.as_array()?;
    if parts.len() == 0 {
        return None;
    }
    let pid = parts[0].get("partId")?;
    proof { pid.lemma_view(); }
    let part_id = pid.as_str()?;
    let bv = body_values?;
    let entry = bv.get(part_id)?;
    let value = entry.get("value")?;
    Some(value.deep_clone())
}

/// Put an email into display shape (see `display_email`).
pub fn extract_body_content(email: JsonValue) -> (r: JsonValue)
    ensures
        r@ == display_email(email@),
{
    proof { email.lemma_view(); }
    match email {
        JsonValue::Object(o) => {
            let mut obj = o;
            let ghost m = obj@;
            if let Some(received) = obj.get("receivedAt") {
                let d = received.deep_clone();
                obj.insert(text::own("date"), d);
            }
            let ghost m1 = obj@;
            let body_values = match obj.get("bodyValues") {
                Some(v) => Some(v.deep_clone()),
                None => None,
            };
            let ghost bv = get(m1, "bodyValues"@);
            let bvr = body_values.as_ref();
            assert(opt_view(bvr) == bv);
            let t = resolve_body_part(obj.get("textBody"), bvr);
            if let Some(c) = t {
                obj.insert(text::own("textBody"), c);
            }
            let ghost m2 = obj@;
            assert(m2 == with_resolved(m1, "textBody"@, bv));
            let h = resolve_body_part(obj.get("htmlBody"), bvr);
            if let Some(c) = h {
                obj.insert(text::own("htmlBody"), c);
            }
            assert(obj@ == with_resolved(m2, "htmlBody"@, bv));
            obj.remove("bodyValues");
            JsonValue::object(obj)
        },
        other => other,
    }
}

/// Put each element of a list into display shape (see `display_list`).
pub fn display_list_of(value: JsonValue) -> (r: JsonValue)
    ensures
        r@ == display_list(value@),
{
    proof { value.lemma_view(); }
    let ghost vv = value@;
    match value {
        JsonValue::Array(items) => {
            let ghost src = crate::json::views(items@);
            assert(vv->Arr_0 =~= src);
            let mut out: Vec<JsonValue> = Vec::new();
            let mut i: usize = 0;
            while i < items.len()
                invariant
                    i <= items.len(),
                    src == crate::json::views(items@),
                    out@.len() == i,
                    forall|j: int| 0 <= j < i ==> (#[trigger] out@[j])@ == display_email(src[j]),
                decreases items.len() - i,
            {
                out.push(extract_body_content(items[i].deep_clone()));
                i = i + 1;
            }
            let r = JsonValue::array(out);
            assert(crate::json::views(out@) =~= src.map_values(|e: Jv| display_email(e)));
            r
        },
        other => other,
    }
}

/// Project a list/search result (an array of `Email` objects) into display shape.
pub fn project_email_list(value: &mut JsonValue)
    ensures
        final(value)@ == display_list(old(value)@),
{
    let mut v = JsonValue::Null;
    std::mem::swap(&mut v, value);
    *value = display_list_of(v);
}

/// Project a single `Email` object into body-view display shape.
pub fn project_email_body(value: &mut JsonValue)
    ensures
        final(value)@ == display_email(old(value)@),
{
    let mut v = JsonValue::Null;
    std::mem::swap(&mut v, value);
    *value = extract_body_content(v);
}

// ---------------------------------------------------------------------------------------
// List views

/// The elements of `a` whose string member `k` is `v`, in order.
pub open spec fn keep_with(a: Seq<Jv>, k: Seq<char>, v: Seq<char>) -> Seq<Jv>
    decreases a.len(),
{
    if a.len() == 0 {
        Seq::empty()
    } else if str_member_of(a.last(), k) == Some(v) {
        keep_with(a.drop_last(), k, v).push(a.last())
    } else {
        keep_with(a.drop_last(), k, v)
    }
}

/// The elements of a list whose string member `k` is `v` (a non-list is unchanged).
pub fn keep_matching(value: &JsonValue, k: &str, v: &str) -> (r: JsonValue)
    ensures
        match value@ {
            Jv::Arr(a) => r@ == Jv::Arr(keep_with(a, k@, v@)),
            _ => r@ == value@,
        },
{
    match value.as_array() {
        Some(items) => {
            let ghost a = value@->Arr_0;
            let mut out: Vec<JsonValue> = Vec::new();
            let mut i: usize = 0;
            assert(a.take(0) =~= Seq::<Jv>::empty());
            while i < items.len()
                invariant
                    i <= items.len(),
                    a.len() == items@.len(),
                    forall|j: int| 0 <= j < a.len() ==> (#[trigger] items@[j])@ == a[j],
                    views(out@) == keep_with(a.take(i as int), k@, v@),
                decreases items.len() - i,
            {
                let e = &items[i];
                assert(a.take(i as int + 1).drop_last() =~= a.take(i as int));
                assert(a.take(i as int + 1).last() == e@);
                let keep = match e.get(k) {
                    Some(x) => match x.as_str() {
                        Some(s) => text::str_eq(s, v),
                        None => false,
                    },
                    None => false,
                };
                if keep {
                    let ghost before = views(out@);
                    out.push(e.deep_clone());
                    assert(views(out@) =~= before.push(e@));
                }
                i = i + 1;
            }
            assert(a.take(items.len() as int) =~= a);
            JsonValue::array(out)
        },
        None => value.deep_clone(),
    }
}

/// The fields of a mailbox list row.
pub const MAILBOX_FIELDS: [&'static str; 6] = ["id", "name", "role", "totalEmails", "unreadEmails", "parentId"];

/// The fields of an identity list row.
pub const IDENTITY_FIELDS: [&'static str; 4] = ["id", "name", "email", "replyTo"];

/// The fields of a masked email list row.
pub const MASKED_EMAIL_FIELDS: [&'static str; 6] = ["id", "email", "forDomain", "description", "state", "createdAt"];

/// The fields of a created masked email.
pub const MASKED_EMAIL_CREATE_FIELDS: [&'static str; 2] = ["id", "email"];

/// The fields of the vacation view.
pub const VACATION_FIELDS: [&'static str; 6] = ["isEnabled", "fromDate", "toDate", "subject", "textBody", "htmlBody"];

/// A list with each element projected to `fields` (a non-list is unchanged).
pub open spec fn project_rows(v: Jv, fields: Seq<Seq<char>>) -> Jv {
    match v {
        Jv::Arr(items) => Jv::Arr(items.map_values(|x: Jv| Jv::Obj(projection(x, fields)))),
        _ => v,
    }
}

/// The mailbox list view: rows of the mailbox fields, only those with role `role` when
/// one is given.
pub open spec fn mailbox_list_view(v: Jv, role: Seq<char>) -> Jv {
    let kept = if role.len() > 0 && v is Arr { Jv::Arr(keep_with(v->Arr_0, "role"@, role)) } else { v };
    project_rows(kept, seq!["id"@, "name"@, "role"@, "totalEmails"@, "unreadEmails"@, "parentId"@])
}

/// Project a mailbox list into its view (see `mailbox_list_view`).
pub fn project_mailbox_list(value: &JsonValue, role: &str) -> (r: JsonValue)
    ensures
        r@ == mailbox_list_view(value@, role@),
{
    let fields: &[&str] = &MAILBOX_FIELDS;
    assert(field_texts(fields@) =~= seq!["id"@, "name"@, "role"@, "totalEmails"@, "unreadEmails"@, "parentId"@]);
    if !role.is_empty() {
        let kept = keep_matching(value, "role", role);
        proof { value.lemma_view(); }
        project_fields_array(&kept, fields)
    } else {
        project_fields_array(value, fields)
    }
}

/// Project an identity list into its view: rows of id, name, email and reply-to.
pub fn project_identity_list(value: &JsonValue) -> (r: JsonValue)
    ensures
        r@ == project_rows(value@, seq!["id"@, "name"@, "email"@, "replyTo"@]),
{
    let fields: &[&str] = &IDENTITY_FIELDS;
    assert(field_texts(fields@) =~= seq!["id"@, "name"@, "email"@, "replyTo"@]);
    project_fields_array(value, fields)
}

/// Project the vacation response into its view: its settings only.
pub fn project_vacation(value: &JsonValue) -> (r: JsonValue)
    ensures
        r@ == Jv::Obj(projection(value@, seq!["isEnabled"@, "fromDate"@, "toDate"@, "subject"@, "textBody"@, "htmlBody"@])),
{
    let fields: &[&str] = &VACATION_FIELDS;
    assert(field_texts(fields@) =~= seq!["isEnabled"@, "fromDate"@, "toDate"@, "subject"@, "textBody"@, "htmlBody"@]);
    project_fields(value, fields)
}

/// The masked email list view: rows of the masked email fields, only those in `state`
/// when one is given.
pub open spec fn masked_email_list_view(v: Jv, state: Option<Seq<char>>) -> Jv {
    let kept = match state {
        Some(s) => if v is Arr { Jv::Arr(keep_with(v->Arr_0, "state"@, s)) } else { v },
        None => v,
    };
    project_rows(kept, seq!["id"@, "email"@, "forDomain"@, "description"@, "state"@, "createdAt"@])
}

/// Project a masked email list into its view (see `masked_email_list_view`).
pub fn project_masked_email_list(value: &JsonValue, state: Option<MaskedEmailState>) -> (r: JsonValue)
    ensures
        r@ == masked_email_list_view(value@, match state { Some(s) => Some(state_label(s)), None => None }),
{
    let fields: &[&str] = &MASKED_EMAIL_FIELDS;
    assert(field_texts(fields@) =~= seq!["id"@, "email"@, "forDomain"@, "description"@, "state"@, "createdAt"@]);
    match state {
        Some(s) => {
            let kept = keep_matching(value, "state", s.label());
            proof { value.lemma_view(); }
            project_fields_array(&kept, fields)
        },
        None => project_fields_array(value, fields),
    }
}

/// The created masked email of a `MaskedEmail/set` result, projected to id and email.
pub open spec fn masked_email_create_view(v: Jv) -> Jv {
    let created = match member(v, "created"@) {
        Some(c) => match member(c, "new-masked"@) {
            Some(x) => x,
            None => Jv::Null,
        },
        None => Jv::Null,
    };
    Jv::Obj(projection(created, seq!["id"@, "email"@]))
}

/// Project a `MaskedEmail/set` result into the create view (see `masked_email_create_view`).
pub fn project_masked_email_create(value: &JsonValue) -> (r: JsonValue)
    ensures
        r@ == masked_email_create_view(value@),
{
    let fields: &[&str] = &MASKED_EMAIL_CREATE_FIELDS;
    assert(field_texts(fields@) =~= seq!["id"@, "email"@]);
    proof { JsonValue::Null.lemma_view(); }
    let null = JsonValue::Null;
    let created = match value.get("created") {
        Some(c) => match c.get("new-masked") {
            Some(x) => x,
            None => &null,
        },
        None => &null,
    };
    project_fields(created, fields)
}

/// The acknowledgement of a change: `{"success": true}`.
pub fn set_ok() -> (r: JsonValue)
    ensures
        r@ == Jv::Obj(map!["success"@ => Jv::Bool(true)]),
{
    proof { JsonValue::Bool(true).lemma_view(); }
    let r = JsonValue::object(JsonObject::new().with("success", JsonValue::Bool(true)));
    assert(r@->Obj_0 =~= map!["success"@ => Jv::Bool(true)]);
    r
}

/// The acknowledgement of a mailbox change with the mailbox it affected (null when unknown).
pub fn set_with_id(id: Option<String>) -> (r: JsonValue)
    ensures
        r@ == Jv::Obj(map!["success"@ => Jv::Bool(true), "mailboxId"@ => match id { Some(s) => Jv::Str(s@), None => Jv::Null }]),
{
    proof { JsonValue::Bool(true).lemma_view(); JsonValue::Null.lemma_view(); }
    let idv = match &id {
        Some(s) => JsonValue::string(s.as_str()),
        None => JsonValue::Null,
    };
    let r = JsonValue::object(JsonObject::new().with("success", JsonValue::Bool(true)).with("mailboxId", idv));
    assert(r@->Obj_0 =~= map!["success"@ => Jv::Bool(true), "mailboxId"@ => match id { Some(s) => Jv::Str(s@), None => Jv::Null }]);
    r
}

// ---------------------------------------------------------------------------------------
// Masked email states and vacation changes

/// The lifecycle state of a masked email.
#[derive(Debug, Clone, Copy, PartialEq, Eq)]
pub enum MaskedEmailState {
    Pending,
    Enabled,
    Disabled,
    Deleted,
}

/// The wire name of a state.
pub open spec fn state_label(s: MaskedEmailState) -> Seq<char> {
    match s {
        MaskedEmailState::Pending => "pending"@,
        MaskedEmailState::Enabled => "enabled"@,
        MaskedEmailState::Disabled => "disabled"@,
        MaskedEmailState::Deleted => "deleted"@,
    }
}

/// The state a wire name denotes.
pub open spec fn state_named(s: Seq<char>) -> Option<MaskedEmailState> {
    if s == "pending"@ {
        Some(MaskedEmailState::Pending)
    } else if s == "enabled"@ {
        Some(MaskedEmailState::Enabled)
    } else if s == "disabled"@ {
        Some(MaskedEmailState::Disabled)
    } else if s == "deleted"@ {
        Some(MaskedEmailState::Deleted)
    } else {
        None
    }
}

/// The four state names are distinct.
proof fn lemma_state_names_distinct()
    ensures
        "pending"@ != "enabled"@,
        "pending"@ != "disabled"@,
        "pending"@ != "deleted"@,
        "enabled"@ != "disabled"@,
        "enabled"@ != "deleted"@,
        "disabled"@ != "deleted"@,
{
    reveal_strlit("pending");
    reveal_strlit("enabled");
    reveal_strlit("disabled");
    reveal_strlit("deleted");
    assert("pending"@[0] == 'p');
    assert("enabled"@[0] == 'e');
    assert("disabled"@[0] == 'd');
    assert("deleted"@[0] == 'd');
    assert("disabled"@.len() != "deleted"@.len());
}

/// Each masked-email state goes by its own lower-case name on the wire (`pending`,
/// `enabled`, `disabled`, `deleted`), and only that name denotes it.
pub proof fn law_state_wire_names(s: MaskedEmailState, t: Seq<char>)
    ensures
        s is Pending ==> state_label(s) == "pending"@,
        s is Enabled ==> state_label(s) == "enabled"@,
        s is Disabled ==> state_label(s) == "disabled"@,
        s is Deleted ==> state_label(s) == "deleted"@,
        state_named(t) == Some(s) <==> t == state_label(s),
{
    lemma_state_names_distinct();
}

/// A state's wire name reads back as that state.
pub proof fn law_state_label_round_trip(s: MaskedEmailState)
    ensures
        state_named(state_label(s)) == Some(s),
{
    lemma_state_names_distinct();
}

impl MaskedEmailState {
    /// The wire name of the state.
    pub fn label(&self) -> (r: &'static str)
        ensures
            r@ == state_label(*self),
    {
        match self {
            MaskedEmailState::Pending => "pending",
            MaskedEmailState::Enabled => "enabled",
            MaskedEmailState::Disabled => "disabled",
            MaskedEmailState::Deleted => "deleted",
        }
    }

    /// Parse any state name.
    pub fn parse(s: &str) -> (r: Result<MaskedEmailState, Error>)
        ensures
            match state_named(s@) {
                Some(st) => r == Ok::<MaskedEmailState, Error>(st),
                None => r matches Err(Error::InvalidParams(m)) && m@ == "state must be pending, enabled, disabled, or deleted"@,
            },
    {
        proof { lemma_state_names_distinct(); }
        if text::str_eq(s, "pending") {
            Ok(MaskedEmailState::Pending)
        } else if text::str_eq(s, "enabled") {
            Ok(MaskedEmailState::Enabled)
        } else if text::str_eq(s, "disabled") {
            Ok(MaskedEmailState::Disabled)
        } else if text::str_eq(s, "deleted") {
            Ok(MaskedEmailState::Deleted)
        } else {
            Err(Error::invalid("state must be pending, enabled, disabled, or deleted"))
        }
    }

    /// Parse a state a client may set: anything but `pending`.
    pub fn parse_settable(s: &str) -> (r: Result<MaskedEmailState, Error>)
        ensures
            match state_named(s@) {
                Some(st) => if st == MaskedEmailState::Pending {
                    r matches Err(Error::InvalidParams(m)) && m@ == "state must be enabled, disabled, or deleted"@
                } else {
                    r == Ok::<MaskedEmailState, Error>(st)
                },
                None => r matches Err(Error::InvalidParams(m)) && m@ == "state must be enabled, disabled, or deleted"@,
            },
    {
        proof { lemma_state_names_distinct(); }
        if text::str_eq(s, "enabled") {
            Ok(MaskedEmailState::Enabled)
        } else if text::str_eq(s, "disabled") {
            Ok(MaskedEmailState::Disabled)
        } else if text::str_eq(s, "deleted") {
            Ok(MaskedEmailState::Deleted)
        } else {
            Err(Error::invalid("state must be enabled, disabled, or deleted"))
        }
    }
}

/// What to do with one optional vacation field.
#[derive(Debug, Clone, PartialEq, Eq)]
pub enum FieldChange {
    /// Leave it as it is.
    Keep,
    /// Clear it (set it to null).
    Clear,
    /// Set it to the text.
    Value(String),
}

impl FieldChange {
    /// A change from an optional value: a value sets, none keeps.
    pub fn from_opt(v: Option<String>) -> (r: FieldChange)
        ensures
            match v {
                Some(s) => r == FieldChange::Value(s),
                None => r == FieldChange::Keep,
            },
    {
        match v {
            Some(s) => FieldChange::Value(s),
            None => FieldChange::Keep,
        }
    }

    /// A change from member `key` of tool arguments: a string sets, null clears, and
    /// anything else (or nothing) keeps.
    pub fn from_arg(args: &JsonValue, key: &str) -> (r: FieldChange)
        ensures
            match member(args@, key@) {
                Some(Jv::Str(s)) => r matches FieldChange::Value(t) && t@ == s,
                Some(Jv::Null) => r == FieldChange::Clear,
                _ => r == FieldChange::Keep,
            },
    {
        match args.get(key) {
            Some(v) => {
                proof { v.lemma_view(); }
                match v {
                    JsonValue::Str(s) => FieldChange::Value(s.clone()),
                    JsonValue::Null => FieldChange::Clear,
                    _ => FieldChange::Keep,
                }
            },
            None => FieldChange::Keep,
        }
    }
}

/// `m` with field `k` changed as `c` says.
pub open spec fn apply_change(m: Map<Seq<char>, Jv>, k: Seq<char>, c: FieldChange) -> Map<Seq<char>, Jv> {
    match c {
        FieldChange::Keep => m,
        FieldChange::Clear => m.insert(k, Jv::Null),
        FieldChange::Value(s) => m.insert(k, Jv::Str(s@)),
    }
}

/// The patch of a vacation update: `isEnabled`, and each optional field as its change says.
pub open spec fn vacation_update(is_enabled: bool, from: FieldChange, to: FieldChange, subject: FieldChange, text_body: FieldChange, html_body: FieldChange) -> Jv {
    Jv::Obj(apply_change(apply_change(apply_change(apply_change(apply_change(
        map!["isEnabled"@ => Jv::Bool(is_enabled)], "fromDate"@, from), "toDate"@, to), "subject"@, subject),
        "textBody"@, text_body), "htmlBody"@, html_body))
}

/// Whether member `k` of `m` shows change `c`: absent when kept, null when cleared, the
/// text when set.
pub open spec fn shows_change(m: Map<Seq<char>, Jv>, k: Seq<char>, c: FieldChange) -> bool {
    match c {
        FieldChange::Keep => !m.contains_key(k),
        FieldChange::Clear => m.contains_key(k) && m[k] == Jv::Null,
        FieldChange::Value(s) => m.contains_key(k) && m[k] == Jv::Str(s@),
    }
}

/// A vacation update sets `isEnabled` as asked, and each of the five optional fields
/// under its own key as its own change says: the start date under `fromDate`, the end
/// date under `toDate`, then `subject`, `textBody` and `htmlBody`.
pub proof fn law_vacation_update_fields(
    is_enabled: bool,
    from: FieldChange,
    to: FieldChange,
    subject: FieldChange,
    text_body: FieldChange,
    html_body: FieldChange,
)
    ensures
        ({
            let m = vacation_update(is_enabled, from, to, subject, text_body, html_body)->Obj_0;
            &&& m.contains_key("isEnabled"@) && m["isEnabled"@] == Jv::Bool(is_enabled)
            &&& shows_change(m, "fromDate"@, from)
            &&& shows_change(m, "toDate"@, to)
            &&& shows_change(m, "subject"@, subject)
            &&& shows_change(m, "textBody"@, text_body)
            &&& shows_change(m, "htmlBody"@, html_body)
        }),
{
    reveal_strlit("isEnabled");
    reveal_strlit("fromDate");
    reveal_strlit("toDate");
    reveal_strlit("subject");
    reveal_strlit("textBody");
    reveal_strlit("htmlBody");
    assert("fromDate"@[0] != "textBody"@[0] && "fromDate"@[0] != "htmlBody"@[0] && "textBody"@[0] != "htmlBody"@[0]);
    assert("isEnabled"@.len() != "fromDate"@.len() && "isEnabled"@.len() != "toDate"@.len() && "isEnabled"@.len() != "subject"@.len());
    assert("isEnabled"@.len() != "textBody"@.len() && "fromDate"@.len() != "toDate"@.len() && "fromDate"@.len() != "subject"@.len());
    assert("toDate"@.len() != "subject"@.len() && "toDate"@.len() != "textBody"@.len() && "subject"@.len() != "textBody"@.len());
}

/// Change field `k` of an object as `c` says.
fn put_change(o: &mut JsonObject, k: &str, c: &FieldChange)
    ensures
        final(o)@ == apply_change(old(o)@, k@, *c),
{
    proof { JsonValue::Null.lemma_view(); }
    match c {
        FieldChange::Keep => {},
        FieldChange::Clear => o.insert(text::own(k), JsonValue::Null),
        FieldChange::Value(s) => o.insert(text::own(k), JsonValue::string(s.as_str())),
    }
}

/// The patch of a vacation update (see `vacation_update`).
pub fn build_vacation_update(
    is_enabled: bool,
    from_date: &FieldChange,
    to_date: &FieldChange,
    subject: &FieldChange,
    text_body: &FieldChange,
    html_body: &FieldChange,
) -> (r: JsonValue)
    ensures
        r@ == vacation_update(is_enabled, *from_date, *to_date, *subject, *text_body, *html_body),
{
    proof { JsonValue::Bool(is_enabled).lemma_view(); }
    let mut o = JsonObject::new().with("isEnabled", JsonValue::Bool(is_enabled));
    assert(o@ =~= map!["isEnabled"@ => Jv::Bool(is_enabled)]);
    put_change(&mut o, "fromDate", from_date);
    put_change(&mut o, "toDate", to_date);
    put_change(&mut o, "subject", subject);
    put_change(&mut o, "textBody", text_body);
    put_change(&mut o, "htmlBody", html_body);
    JsonValue::object(o)
}

} // verus!
