//! The MCP tools: each action validates its parameters, makes its JMAP calls through a
//! transport, and shapes the reply.

pub mod contact;
pub mod email;
pub mod identity;
pub mod mailbox;
pub mod masked_email;
pub mod vacation;

use vstd::prelude::*;

use crate::error::Error;
use crate::jmap::client::{bearer, one_more, Exchange, Exchanged, HttpTransport, JmapClient};
use crate::jmap::types::{core_capability, session_ok, str_values, Session};
use crate::jmap::{first_set_error, set_error_text};
use crate::json::{member, obj_member, str_member, JsonObject, JsonValue, Jv};
use crate::recorder::Recorder;
use crate::mcp::types::Tool;
use crate::text;

verus! {

/// Context passed to all actions.
pub struct Context {
    pub jmap: JmapClient,
    pub account_id: String,
    pub recorder: Option<Recorder>,
}

/// The account a session works in: its primary account for the core capability, or the
/// error that the session names none.
pub fn account_of(session: &Session) -> (r: Result<String, Error>)
    ensures
        match r {
            Ok(id) => session.primary_accounts@.contains_key(core_capability())
                && id@ == session.primary_accounts@[core_capability()],
            Err(e) => !session.primary_accounts@.contains_key(core_capability())
                && (e matches Error::Jmap { method, message } && method@ == "session"@
                    && message@ == "no primary account found in JMAP session"@),
        },
{
    match session.primary_account_id() {
        Some(id) => Ok(text::own(id)),
        None => Err(Error::jmap("session", "no primary account found in JMAP session")),
    }
}

/// Connect with `token` to the session resource at `session_url` and build the context
/// that CLI commands and the MCP server share: the client for the session's API, its
/// primary account, and the recorder, if any.
pub fn connect<T: HttpTransport>(t: &mut Exchange<T>, session_url: &str, token: &str, recorder: Option<Recorder>) -> (r: Result<Context, Error>)
    ensures
        one_more(old(t).log(), final(t).log()),
        final(t).log().last() matches Exchanged::Get { url, auth, reply } && url == session_url@
            && auth == bearer(token@) && match reply {
                Err(e) => r matches Err(x) && x == e,
                Ok(j) => if !session_ok(j) {
                    r matches Err(x) && x is Json
                } else if str_values(obj_member(j->Obj_0, "primaryAccounts"@)->0).contains_key(core_capability()) {
                    r matches Ok(ctx) && ctx.jmap.token_view() == token@ && ctx.recorder == recorder
                        && ctx.account_id@ == str_values(obj_member(j->Obj_0, "primaryAccounts"@)->0)[core_capability()]
                        && ctx.jmap.api_url_view() == str_member(j->Obj_0, "apiUrl"@)->0
                        && ctx.jmap.download_url_view() == str_member(j->Obj_0, "downloadUrl"@)->0
                } else {
                    r matches Err(Error::Jmap { method, message }) && method@ == "session"@
                        && message@ == "no primary account found in JMAP session"@
                },
            },
{
    let (client, session) = match JmapClient::connect_to(t, session_url, token) {
        Ok(x) => x,
        Err(e) => return Err(e),
    };
    let account_id = match account_of(&session) {
        Ok(a) => a,
        Err(e) => return Err(e),
    };
    Ok(Context { jmap: client, account_id, recorder })
}

/// Every MCP tool implements this trait.
pub trait Action {
    fn run<T: HttpTransport>(&self, ctx: &Context, t: &mut Exchange<T>) -> Result<JsonValue, Error>;
}

/// The texts of a list of field names.
pub open spec fn field_texts(fields: Seq<&str>) -> Seq<Seq<char>> {
    fields.map_values(|f: &str| f@)
}

/// The members of object `v` named in `fields` (nothing for a non-object).
pub open spec fn projection(v: Jv, fields: Seq<Seq<char>>) -> Map<Seq<char>, Jv> {
    match v {
        Jv::Obj(m) => Map::new(|k: Seq<char>| fields.contains(k) && m.contains_key(k), |k: Seq<char>| m[k]),
        _ => Map::empty(),
    }
}

/// A projection keeps only named fields of the object, with their values unchanged, and
/// keeps every named field the object has; projecting a projection on the same fields
/// changes nothing.
pub proof fn law_projection(v: Jv, fields: Seq<Seq<char>>)
    ensures
        forall|k: Seq<char>| #[trigger] projection(v, fields).contains_key(k)
            ==> fields.contains(k) && (v matches Jv::Obj(m) && m.contains_key(k) && projection(v, fields)[k] == m[k]),
        v matches Jv::Obj(m) ==> forall|k: Seq<char>| fields.contains(k) && #[trigger] m.contains_key(k)
            ==> projection(v, fields).contains_key(k),
        projection(Jv::Obj(projection(v, fields)), fields) == projection(v, fields),
{
    assert(projection(Jv::Obj(projection(v, fields)), fields) =~= projection(v, fields));
}

/// Create a new JSON object containing only the specified fields from `obj`.
pub fn project_fields(obj: &JsonValue, fields: &[&str]) -> (r: JsonValue)
    ensures
        r@ == Jv::Obj(projection(obj@, field_texts(fields@))),
{
    let mut result = JsonObject::new();
    let ghost fs = field_texts(fields@);
    if let Some(map) = obj.as_object() {
        let mut i: usize = 0;
        while i < fields.len()
            invariant
                i <= fields@.len(),
                fs == field_texts(fields@),
                obj@ == Jv::Obj(map@),
                result@ == Map::new(|k: Seq<char>| fs.take(i as int).contains(k) && map@.contains_key(k), |k: Seq<char>| map@[k]),
            decreases fields.len() - i,
        {
            let field = fields[i];
            proof {
                let a = fs.take(i as int);
                let b = fs.take(i as int + 1);
                assert(fs[i as int] == field@);
                assert(b =~= a.push(field@));
                assert forall|k: Seq<char>| b.contains(k) <==> (a.contains(k) || k == field@) by {
                    if b.contains(k) {
                        let j = choose|j: int| 0 <= j < b.len() && b[j] == k;
                        if j < a.len() {
                            assert(a[j] == k);
                        }
                    }
                    if a.contains(k) {
                        let j = choose|j: int| 0 <= j < a.len() && a[j] == k;
                        assert(b[j] == k);
                    }
                    if k == field@ {
                        assert(b[a.len() as int] == k);
                    }
                }
            }
            if let Some(value) = map.get(field) {
                result.insert(text::own(field), value.deep_clone());
            }
            assert(result@ =~= Map::new(|k: Seq<char>| fs.take(i as int + 1).contains(k) && map@.contains_key(k), |k: Seq<char>| map@[k]));
            i = i + 1;
        }
        assert(fs.take(fields@.len() as int) == fs);
    } else {
        assert(result@ =~= projection(obj@, fs));
    }
    JsonValue::object(result)
}

/// Apply field projection to each element of a JSON array (a non-array comes back as is).
pub fn project_fields_array(arr: &JsonValue, fields: &[&str]) -> (r: JsonValue)
    ensures
        match arr@ {
            Jv::Arr(items) => r@ == Jv::Arr(items.map_values(|x: Jv| Jv::Obj(projection(x, field_texts(fields@))))),
            _ => r@ == arr@,
        },
{
    match arr.as_array() {
        Some(items) => {
            let mut out: Vec<JsonValue> = Vec::new();
            let mut i: usize = 0;
            while i < items.len()
                invariant
                    i <= items.len(),
                    out@.len() == i,
                    forall|j: int| 0 <= j < i ==> (#[trigger] out@[j])@ == Jv::Obj(projection(items@[j]@, field_texts(fields@))),
                decreases items.len() - i,
            {
                out.push(project_fields(&items[i], fields));
                i = i + 1;
            }
            let r = JsonValue::array(out);
            assert(crate::json::views(out@) =~= arr@->Arr_0.map_values(|x: Jv| Jv::Obj(projection(x, field_texts(fields@)))));
            r
        },
        None => arr.deep_clone(),
    }
}

/// The failure map member `key` of a `/set` response holds (empty when absent or not
/// an object).
pub open spec fn failures(data: Jv, key: Seq<char>) -> Map<Seq<char>, Jv> {
    match member(data, key) {
        Some(Jv::Obj(m)) => m,
        _ => Map::empty(),
    }
}

/// The first partial failure a raw `/set` response reports.
pub open spec fn set_failure(data: Jv) -> Option<Seq<char>> {
    first_set_error(failures(data, "notCreated"@), failures(data, "notUpdated"@), failures(data, "notDestroyed"@))
}

/// The failure map member `key` of a `/set` response.
fn failure_text(data: &JsonValue, key: &str) -> (r: Option<String>)
    ensures
        match r {
            Some(t) => failures(data@, key@).dom().len() > 0 && t@ == crate::jmap::set_error_message(failures(data@, key@), key@),
            None => failures(data@, key@).dom().len() == 0,
        },
{
    match data.get(key) {
        Some(v) => match v.as_object() {
            Some(o) => set_error_text(o, key),
            None => {
                proof { assert(failures(data@, key@) =~= Map::<Seq<char>, Jv>::empty()); }
                None
            },
        },
        None => {
            proof { assert(failures(data@, key@) =~= Map::<Seq<char>, Jv>::empty()); }
            None
        },
    }
}

/// Check a raw JMAP `/set` response for partial failures: the first entry of the first
/// non-empty `notCreated`, `notUpdated`, `notDestroyed` (in that order) becomes a JMAP
/// error of `method`, described by its `description` or else by the map's name.
pub fn check_set_errors(data: &JsonValue, method: &str) -> (r: Result<(), Error>)
    ensures
        match set_failure(data@) {
            Some(msg) => r matches Err(Error::Jmap { method: m, message: g }) && m@ == method@ && g@ == msg,
            None => r is Ok,
        },
{
    if let Some(t) = failure_text(data, "notCreated") {
        return Err(Error::Jmap { method: text::own(method), message: t });
    }
    if let Some(t) = failure_text(data, "notUpdated") {
        return Err(Error::Jmap { method: text::own(method), message: t });
    }
    if let Some(t) = failure_text(data, "notDestroyed") {
        return Err(Error::Jmap { method: text::own(method), message: t });
    }
    Ok(())
}

/// The string member `k` of a value, if it is one.
pub open spec fn str_member_of(v: Jv, k: Seq<char>) -> Option<Seq<char>> {
    match member(v, k) {
        Some(Jv::Str(s)) => Some(s),
        _ => None,
    }
}

/// The id of the first mailbox whose `role` is `role` and which has an id.
pub open spec fn mailbox_with_role(ms: Seq<Jv>, role: Seq<char>) -> Option<Seq<char>>
    decreases ms.len(),
{
    if ms.len() == 0 {
        None
    } else if str_member_of(ms[0], "role"@) == Some(role) && str_member_of(ms[0], "id"@) is Some {
        str_member_of(ms[0], "id"@)
    } else {
        mailbox_with_role(ms.drop_first(), role)
    }
}

/// The id of the first mailbox whose name equals `name` ignoring case, and which has an id.
pub open spec fn mailbox_with_name(ms: Seq<Jv>, name: Seq<char>) -> Option<Seq<char>>
    decreases ms.len(),
{
    if ms.len() == 0 {
        None
    } else if (str_member_of(ms[0], "name"@) matches Some(n) && text::lowercase(n) == text::lowercase(name))
        && str_member_of(ms[0], "id"@) is Some {
        str_member_of(ms[0], "id"@)
    } else {
        mailbox_with_name(ms.drop_first(), name)
    }
}

/// A string member of a value.
fn str_of<'a>(v: &'a JsonValue, k: &str) -> (r: Option<&'a str>)
    ensures
        match r {
            Some(s) => str_member_of(v@, k@) == Some(s@),
            None => str_member_of(v@, k@) is None,
        },
{
    match v.get(k) {
        Some(x) => x.as_str(),
        None => None,
    }
}

/// Find a mailbox id in a JMAP `Mailbox/get` list by its `role` field.
pub fn find_mailbox_id_by_role(mailboxes: &[JsonValue], role: &str) -> (r: Option<String>)
    ensures
        match r {
            Some(id) => mailbox_with_role(crate::json::views(mailboxes@), role@) == Some(id@),
            None => mailbox_with_role(crate::json::views(mailboxes@), role@) is None,
        },
{
    let ghost vs = crate::json::views(mailboxes@);
    let mut i: usize = 0;
    assert(vs.subrange(0, vs.len() as int) == vs);
    while i < mailboxes.len()
        invariant
            i <= mailboxes@.len(),
            vs == crate::json::views(mailboxes@),
            mailbox_with_role(vs, role@) == mailbox_with_role(vs.subrange(i as int, vs.len() as int), role@),
        decreases mailboxes.len() - i,
    {
        let m = &mailboxes[i];
        proof {
            let rest = vs.subrange(i as int, vs.len() as int);
            assert(rest[0] == m@);
            assert(rest.drop_first() =~= vs.subrange(i as int + 1, vs.len() as int));
        }
        if let Some(r) = str_of(m, "role") {
            if text::str_eq(r, role) {
                if let Some(id) = str_of(m, "id") {
                    return Some(text::own(id));
                }
            }
        }
        i = i + 1;
    }
    None
}

/// Find a mailbox id in a JMAP `Mailbox/get` list by exact, case-insensitive name.
pub fn find_mailbox_id_by_name(mailboxes: &[JsonValue], name: &str) -> (r: Option<String>)
    ensures
        match r {
            Some(id) => mailbox_with_name(crate::json::views(mailboxes@), name@) == Some(id@),
            None => mailbox_with_name(crate::json::views(mailboxes@), name@) is None,
        },
{
    let target = text::to_lowercase(name);
    let ghost vs = crate::json::views(mailboxes@);
    let mut i: usize = 0;
    assert(vs.subrange(0, vs.len() as int) == vs);
    while i < mailboxes.len()
        invariant
            i <= mailboxes@.len(),
            vs == crate::json::views(mailboxes@),
            target@ == text::lowercase(name@),
            mailbox_with_name(vs, name@) == mailbox_with_name(vs.subrange(i as int, vs.len() as int), name@),
        decreases mailboxes.len() - i,
    {
        let m = &mailboxes[i];
        proof {
            let rest = vs.subrange(i as int, vs.len() as int);
            assert(rest[0] == m@);
            assert(rest.drop_first() =~= vs.subrange(i as int + 1, vs.len() as int));
        }
        if let Some(n) = str_of(m, "name") {
            let ln = text::to_lowercase(n);
            if text::str_eq(ln.as_str(), target.as_str()) {
                if let Some(id) = str_of(m, "id") {
                    return Some(text::own(id));
                }
            }
        }
        i = i + 1;
    }
    None
}

// ---------------------------------------------------------------------------------------
// Tool input schemas

/// A property schema: its type and description.
pub open spec fn prop_jv(ty: Seq<char>, desc: Seq<char>) -> Jv {
    Jv::Obj(map!["type"@ => Jv::Str(ty), "description"@ => Jv::Str(desc)])
}

/// The type a property schema declares, or null where it declares none.
pub open spec fn type_of(p: Jv) -> Jv {
    match p {
        Jv::Obj(m) => if m.contains_key("type"@) { m["type"@] } else { Jv::Null },
        _ => Jv::Null,
    }
}

/// A property's name with the type it is declared with.
pub open spec fn typed(name: Seq<char>, ty: Seq<char>) -> (Seq<char>, Jv) {
    (name, Jv::Str(ty))
}

/// The types an object schema declares for its properties, by property name.
pub open spec fn property_types(schema: Jv) -> Map<Seq<char>, Jv> {
    match schema {
        Jv::Obj(m) => if m.contains_key("properties"@) {
            match m["properties"@] {
                Jv::Obj(p) => p.map_values(|v: Jv| type_of(v)),
                _ => Map::empty(),
            }
        } else {
            Map::empty()
        },
        _ => Map::empty(),
    }
}

/// The map that a list of (name, value) pairs gives, a later pair of a name replacing an
/// earlier one.
pub open spec fn named_map(s: Seq<(Seq<char>, Jv)>) -> Map<Seq<char>, Jv>
    decreases s.len(),
{
    if s.len() == 0 {
        Map::empty()
    } else {
        named_map(s.drop_last()).insert(s.last().0, s.last().1)
    }
}

/// The (name, type) pairs of a list of (name, schema) pairs.
pub open spec fn prop_kinds(s: Seq<(&str, JsonValue)>) -> Seq<(Seq<char>, Jv)> {
    s.map_values(|p: (&str, JsonValue)| (p.0@, type_of(p.1@)))
}

/// The description a property schema gives, or null where it gives none.
pub open spec fn description_of(p: Jv) -> Jv {
    match p {
        Jv::Obj(m) => if m.contains_key("description"@) { m["description"@] } else { Jv::Null },
        _ => Jv::Null,
    }
}

/// A property's name with its description.
pub open spec fn described(name: Seq<char>, desc: Seq<char>) -> (Seq<char>, Jv) {
    (name, Jv::Str(desc))
}

/// The descriptions an object schema gives of its properties, by property name.
pub open spec fn property_descriptions(schema: Jv) -> Map<Seq<char>, Jv> {
    match schema {
        Jv::Obj(m) => if m.contains_key("properties"@) {
            match m["properties"@] {
                Jv::Obj(p) => p.map_values(|v: Jv| description_of(v)),
                _ => Map::empty(),
            }
        } else {
            Map::empty()
        },
        _ => Map::empty(),
    }
}

/// The (name, description) pairs of a list of (name, schema) pairs.
pub open spec fn prop_docs(s: Seq<(&str, JsonValue)>) -> Seq<(Seq<char>, Jv)> {
    s.map_values(|p: (&str, JsonValue)| (p.0@, description_of(p.1@)))
}

/// The descriptions of the properties a list of (name, schema) pairs denotes are those
/// its (name, description) pairs give.
proof fn lemma_props_docs(s: Seq<(&str, JsonValue)>)
    ensures
        props_map(s).map_values(|v: Jv| description_of(v)) == named_map(prop_docs(s)),
    decreases s.len(),
{
    if s.len() > 0 {
        lemma_props_docs(s.drop_last());
        assert(prop_docs(s).drop_last() =~= prop_docs(s.drop_last()));
        assert(props_map(s).map_values(|v: Jv| description_of(v)) =~= props_map(s.drop_last()).map_values(|v: Jv| description_of(v))
            .insert(s.last().0@, description_of(s.last().1@)));
    }
}

/// The values a property schema limits its property to, or null where it sets no limit.
pub open spec fn enum_of(p: Jv) -> Jv {
    match p {
        Jv::Obj(m) => if m.contains_key("enum"@) { m["enum"@] } else { Jv::Null },
        _ => Jv::Null,
    }
}

/// A property's name, for a property whose values are not limited.
pub open spec fn unlimited(name: Seq<char>) -> (Seq<char>, Jv) {
    (name, Jv::Null)
}

/// A property's name with the values it is limited to.
pub open spec fn one_of(name: Seq<char>, values: Seq<Seq<char>>) -> (Seq<char>, Jv) {
    (name, crate::actions::email::str_arr(values))
}

/// The values an object schema limits its properties to, by property name (null for a
/// property without a limit).
pub open spec fn property_enums(schema: Jv) -> Map<Seq<char>, Jv> {
    match schema {
        Jv::Obj(m) => if m.contains_key("properties"@) {
            match m["properties"@] {
                Jv::Obj(p) => p.map_values(|v: Jv| enum_of(v)),
                _ => Map::empty(),
            }
        } else {
            Map::empty()
        },
        _ => Map::empty(),
    }
}

/// The (name, allowed values) pairs of a list of (name, schema) pairs.
pub open spec fn prop_enums(s: Seq<(&str, JsonValue)>) -> Seq<(Seq<char>, Jv)> {
    s.map_values(|p: (&str, JsonValue)| (p.0@, enum_of(p.1@)))
}

/// The allowed values of the properties a list of (name, schema) pairs denotes are those
/// its (name, allowed values) pairs give.
proof fn lemma_props_enums(s: Seq<(&str, JsonValue)>)
    ensures
        props_map(s).map_values(|v: Jv| enum_of(v)) == named_map(prop_enums(s)),
    decreases s.len(),
{
    if s.len() > 0 {
        lemma_props_enums(s.drop_last());
        assert(prop_enums(s).drop_last() =~= prop_enums(s.drop_last()));
        assert(props_map(s).map_values(|v: Jv| enum_of(v)) =~= props_map(s.drop_last()).map_values(|v: Jv| enum_of(v))
            .insert(s.last().0@, enum_of(s.last().1@)));
    }
}

/// The types of the properties a list of (name, schema) pairs denotes are the types that
/// its (name, type) pairs give.
proof fn lemma_props_types(s: Seq<(&str, JsonValue)>)
    ensures
        props_map(s).map_values(|v: Jv| type_of(v)) == named_map(prop_kinds(s)),
    decreases s.len(),
{
    if s.len() > 0 {
        lemma_props_types(s.drop_last());
        assert(prop_kinds(s).drop_last() =~= prop_kinds(s.drop_last()));
        assert(props_map(s).map_values(|v: Jv| type_of(v)) =~= props_map(s.drop_last()).map_values(|v: Jv| type_of(v))
            .insert(s.last().0@, type_of(s.last().1@)));
    }
}

/// The keys `type` and `description` differ from each other and from the other keys of
/// a property schema.
proof fn lemma_type_key()
    ensures
        "type"@ != "description"@,
        "type"@ != "enum"@,
        "type"@ != "items"@,
        "description"@ != "enum"@,
        "description"@ != "items"@,
        "enum"@ != "items"@,
{
    reveal_strlit("type");
    reveal_strlit("description");
    reveal_strlit("enum");
    reveal_strlit("items");
    assert("type"@.len() != "description"@.len());
    assert("type"@[0] != "enum"@[0]);
    assert("type"@[0] != "items"@[0]);
    assert("description"@[0] != "enum"@[0]);
    assert("description"@[0] != "items"@[0]);
    assert("enum"@[0] != "items"@[0]);
}

/// A property schema of type `ty`.
pub fn prop(ty: &str, desc: &str) -> (r: JsonValue)
    ensures
        r@ == prop_jv(ty@, desc@),
        type_of(r@) == Jv::Str(ty@),
        description_of(r@) == Jv::Str(desc@),
        enum_of(r@) == Jv::Null,
{
    proof { lemma_type_key(); }
    let r = JsonValue::object(JsonObject::new().with("type", JsonValue::string(ty)).with("description", JsonValue::string(desc)));
    assert(r@->Obj_0 =~= prop_jv(ty@, desc@)->Obj_0);
    r
}

/// A property schema whose values are among `values`.
pub fn enum_prop(ty: &str, desc: &str, values: &[&str]) -> (r: JsonValue)
    ensures
        r@ == Jv::Obj(prop_jv(ty@, desc@)->Obj_0.insert("enum"@, crate::actions::email::str_arr(field_texts(values@)))),
        type_of(r@) == Jv::Str(ty@),
        description_of(r@) == Jv::Str(desc@),
        enum_of(r@) == crate::actions::email::str_arr(field_texts(values@)),
{
    proof { lemma_type_key(); }
    let r = JsonValue::object(JsonObject::new()
        .with("type", JsonValue::string(ty))
        .with("description", JsonValue::string(desc))
        .with("enum", crate::actions::email::str_array(values)));
    assert(r@->Obj_0 =~= prop_jv(ty@, desc@)->Obj_0.insert("enum"@, crate::actions::email::str_arr(field_texts(values@))));
    r
}

/// The schema of a list of strings.
pub open spec fn string_list_jv(desc: Seq<char>) -> Jv {
    Jv::Obj(map!["type"@ => Jv::Str("array"@), "items"@ => Jv::Obj(map!["type"@ => Jv::Str("string"@)]), "description"@ => Jv::Str(desc)])
}

/// A property schema holding a list of strings.
pub fn string_list_prop(desc: &str) -> (r: JsonValue)
    ensures
        r@ == string_list_jv(desc@),
        type_of(r@) == Jv::Str("array"@),
        description_of(r@) == Jv::Str(desc@),
        enum_of(r@) == Jv::Null,
{
    proof { lemma_type_key(); }
    let items = JsonValue::object(JsonObject::new().with("type", JsonValue::string("string")));
    assert(items@->Obj_0 =~= map!["type"@ => Jv::Str("string"@)]);
    let r = JsonValue::object(JsonObject::new()
        .with("type", JsonValue::string("array"))
        .with("items", items)
        .with("description", JsonValue::string(desc)));
    assert(r@->Obj_0 =~= string_list_jv(desc@)->Obj_0);
    r
}

/// The map a list of (name, schema) pairs denotes.
pub open spec fn props_map(s: Seq<(&str, JsonValue)>) -> Map<Seq<char>, Jv>
    decreases s.len(),
{
    if s.len() == 0 {
        Map::empty()
    } else {
        props_map(s.drop_last()).insert(s.last().0@, s.last().1@)
    }
}

/// The names a list of (name, schema) pairs gives, in order.
pub open spec fn prop_names(s: Seq<(&str, JsonValue)>) -> Seq<Seq<char>> {
    s.map_values(|p: (&str, JsonValue)| p.0@)
}

/// The names of the properties an object schema declares.
pub open spec fn property_names(schema: Jv) -> Set<Seq<char>> {
    match schema {
        Jv::Obj(m) => if m.contains_key("properties"@) {
            match m["properties"@] {
                Jv::Obj(p) => p.dom(),
                _ => Set::empty(),
            }
        } else {
            Set::empty()
        },
        _ => Set::empty(),
    }
}

/// The fields an object schema lists as required (none when it lists none).
pub open spec fn required_fields(schema: Jv) -> Seq<Seq<char>> {
    match schema {
        Jv::Obj(m) => if m.contains_key("required"@) {
            match m["required"@] {
                Jv::Arr(a) => crate::json::str_texts(a),
                _ => Seq::empty(),
            }
        } else {
            Seq::empty()
        },
        _ => Seq::empty(),
    }
}

/// The keys of the map a list of pairs denotes are the names the list gives.
proof fn lemma_props_map_dom(s: Seq<(&str, JsonValue)>)
    ensures
        props_map(s).dom() == prop_names(s).to_set(),
    decreases s.len(),
{
    if s.len() > 0 {
        let init = s.drop_last();
        lemma_props_map_dom(init);
        let x = s.last().0@;
        let ns = prop_names(s);
        let ni = prop_names(init);
        assert(ns =~= ni.push(x));
        assert forall|k: Seq<char>| props_map(s).dom().contains(k) <==> ns.to_set().contains(k) by {
            if ni.contains(k) {
                let j = choose|j: int| 0 <= j < ni.len() && ni[j] == k;
                assert(ns[j] == k);
            }
            if k == x {
                assert(ns[ns.len() - 1] == k);
            }
            if ns.contains(k) {
                let j = choose|j: int| 0 <= j < ns.len() && ns[j] == k;
                if j < ni.len() {
                    assert(ni[j] == k);
                }
            }
        }
        assert(props_map(s).dom() =~= ns.to_set());
    } else {
        assert(props_map(s).dom() =~= prop_names(s).to_set());
    }
}

/// Whether `j` is an object schema: type `object` with a `properties` object.
pub open spec fn is_object_schema(j: Jv) -> bool {
    j matches Jv::Obj(m) && m.contains_key("type"@) && m["type"@] == Jv::Str("object"@)
        && m.contains_key("properties"@) && m["properties"@] is Obj
}

/// An object schema with the given properties, and the required ones when any.
pub fn schema(props: Vec<(&str, JsonValue)>, required: &[&str]) -> (r: JsonValue)
    ensures
        is_object_schema(r@),
        r@->Obj_0["properties"@] == Jv::Obj(props_map(props@)),
        property_names(r@) == prop_names(props@).to_set(),
        property_types(r@) == named_map(prop_kinds(props@)),
        property_descriptions(r@) == named_map(prop_docs(props@)),
        property_enums(r@) == named_map(prop_enums(props@)),
        required_fields(r@) == field_texts(required@),
        r@->Obj_0.contains_key("required"@) == (required@.len() > 0),
        required@.len() > 0 ==> r@->Obj_0["required"@] == crate::actions::email::str_arr(field_texts(required@)),
{
    let ghost pv = props@;
    proof {
        reveal_strlit("type");
        reveal_strlit("properties");
        reveal_strlit("required");
    }
    let mut m = JsonObject::new();
    let n = props.len();
    let mut ps = props;
    let mut i: usize = 0;
    let mut rev: Vec<(&str, JsonValue)> = Vec::new();
    while ps.len() > 0
        invariant
            ps@.len() + rev@.len() == pv.len(),
            forall|k: int| 0 <= k < ps@.len() ==> ps@[k] == pv[k],
            forall|k: int| 0 <= k < rev@.len() ==> rev@[k] == pv[pv.len() - 1 - k],
        decreases ps.len(),
    {
        let x = ps.pop().unwrap();
        rev.push(x);
    }
    while rev.len() > 0
        invariant
            n == pv.len(),
            i + rev@.len() == pv.len(),
            forall|k: int| 0 <= k < rev@.len() ==> rev@[k] == pv[pv.len() - 1 - k],
            m@ == props_map(pv.take(i as int)),
        decreases rev.len(),
    {
        let (k, v) = rev.pop().unwrap();
        assert(pv.take(i as int + 1).drop_last() =~= pv.take(i as int));
        assert(pv.take(i as int + 1).last() == pv[i as int]);
        m.insert(text::own(k), v);
        i = i + 1;
    }
    assert(pv.take(pv.len() as int) =~= pv);
    assert(m@ == props_map(pv));
    let pm = JsonValue::object(m);
    assert(pm@ == Jv::Obj(props_map(pv)));
    let mut o = JsonObject::new()
        .with("type", JsonValue::string("object"))
        .with("properties", pm);
    assert(o@["properties"@] == Jv::Obj(props_map(pv)));
    assert("required"@.len() == 8 && "properties"@.len() == 10 && "type"@.len() == 4);
    assert(o@["type"@] == Jv::Str("object"@));
    if required.len() > 0 {
        o.insert(text::own("required"), crate::actions::email::str_array(required));
    }
    assert(o@["properties"@] == Jv::Obj(props_map(pv)));
    proof {
        lemma_props_map_dom(pv);
        lemma_props_types(pv);
        lemma_props_docs(pv);
        lemma_props_enums(pv);
        if required@.len() == 0 {
            assert(field_texts(required@) =~= Seq::<Seq<char>>::empty());
        } else {
            let a = crate::actions::email::str_arr(field_texts(required@))->Arr_0;
            assert(crate::json::str_texts(a) =~= field_texts(required@));
        }
    }
    JsonValue::object(o)
}

/// A tool's name and description.
pub open spec fn tool_head(t: Tool) -> (Seq<char>, Seq<char>) {
    (t.name@, t.description@)
}

/// The names and descriptions of a list of tools.
pub open spec fn tool_heads(ts: Seq<Tool>) -> Seq<(Seq<char>, Seq<char>)> {
    ts.map_values(|t: Tool| tool_head(t))
}

/// Whether each tool's schema declares the property names and the required fields that
/// `fields` gives for it, in order, with no `required` key where none is required.
pub open spec fn schemas_declare(ts: Seq<Tool>, fields: Seq<(Seq<Seq<char>>, Seq<Seq<char>>)>) -> bool {
    &&& ts.len() == fields.len()
    &&& forall|i: int| 0 <= i < ts.len() ==> property_names(#[trigger] ts[i].input_schema@) == fields[i].0.to_set()
        && required_fields(ts[i].input_schema@) == fields[i].1
        && ts[i].input_schema@->Obj_0.contains_key("required"@) == (fields[i].1.len() > 0)
}

/// Whether each tool's schema declares its properties with the types that `types` gives
/// for it, in order.
pub open spec fn schemas_typed(ts: Seq<Tool>, types: Seq<Seq<(Seq<char>, Jv)>>) -> bool {
    &&& ts.len() == types.len()
    &&& forall|i: int| 0 <= i < ts.len() ==> property_types(#[trigger] ts[i].input_schema@) == named_map(types[i])
}

proof fn lemma_schemas_typed_concat(a: Seq<Tool>, ta: Seq<Seq<(Seq<char>, Jv)>>, b: Seq<Tool>, tb: Seq<Seq<(Seq<char>, Jv)>>)
    requires
        schemas_typed(a, ta),
        schemas_typed(b, tb),
    ensures
        schemas_typed(a + b, ta + tb),
{
    assert forall|i: int| 0 <= i < (a + b).len() implies property_types(#[trigger] (a + b)[i].input_schema@)
        == named_map((ta + tb)[i]) by {
        if i >= a.len() {
            assert((a + b)[i] == b[i - a.len()]);
            assert((ta + tb)[i] == tb[i - a.len()]);
        }
    }
}

/// Whether each tool's schema describes its properties as `docs` gives for it, in order.
pub open spec fn schemas_described(ts: Seq<Tool>, docs: Seq<Seq<(Seq<char>, Jv)>>) -> bool {
    &&& ts.len() == docs.len()
    &&& forall|i: int| 0 <= i < ts.len() ==> property_descriptions(#[trigger] ts[i].input_schema@) == named_map(docs[i])
}

proof fn lemma_schemas_described_concat(a: Seq<Tool>, da: Seq<Seq<(Seq<char>, Jv)>>, b: Seq<Tool>, db: Seq<Seq<(Seq<char>, Jv)>>)
    requires
        schemas_described(a, da),
        schemas_described(b, db),
    ensures
        schemas_described(a + b, da + db),
{
    assert forall|i: int| 0 <= i < (a + b).len() implies property_descriptions(#[trigger] (a + b)[i].input_schema@)
        == named_map((da + db)[i]) by {
        if i >= a.len() {
            assert((a + b)[i] == b[i - a.len()]);
            assert((da + db)[i] == db[i - a.len()]);
        }
    }
}

/// Whether each tool's schema limits its properties to the values `enums` gives for it,
/// in order.
pub open spec fn schemas_limited(ts: Seq<Tool>, enums: Seq<Seq<(Seq<char>, Jv)>>) -> bool {
    &&& ts.len() == enums.len()
    &&& forall|i: int| 0 <= i < ts.len() ==> property_enums(#[trigger] ts[i].input_schema@) == named_map(enums[i])
}

proof fn lemma_schemas_limited_concat(a: Seq<Tool>, ea: Seq<Seq<(Seq<char>, Jv)>>, b: Seq<Tool>, eb: Seq<Seq<(Seq<char>, Jv)>>)
    requires
        schemas_limited(a, ea),
        schemas_limited(b, eb),
    ensures
        schemas_limited(a + b, ea + eb),
{
    assert forall|i: int| 0 <= i < (a + b).len() implies property_enums(#[trigger] (a + b)[i].input_schema@)
        == named_map((ea + eb)[i]) by {
        if i >= a.len() {
            assert((a + b)[i] == b[i - a.len()]);
            assert((ea + eb)[i] == eb[i - a.len()]);
        }
    }
}

/// Whether every tool takes an object schema.
pub open spec fn all_object_schemas(ts: Seq<Tool>) -> bool {
    forall|i: int| 0 <= i < ts.len() ==> is_object_schema(#[trigger] ts[i].input_schema@)
}

/// Move every tool of `more` to the end of `all`.
fn extend_tools(all: &mut Vec<Tool>, more: Vec<Tool>)
    ensures
        final(all)@ == old(all)@ + more@,
{
    let mut more = more;
    let n = more.len();
    let mut rev: Vec<Tool> = Vec::new();
    let ghost m = more@;
    while more.len() > 0
        invariant
            more@.len() + rev@.len() == m.len(),
            forall|k: int| 0 <= k < more@.len() ==> more@[k] == m[k],
            forall|k: int| 0 <= k < rev@.len() ==> rev@[k] == m[m.len() - 1 - k],
        decreases more.len(),
    {
        let t = more.pop().unwrap();
        rev.push(t);
    }
    let ghost start = all@;
    let mut i: usize = 0;
    while rev.len() > 0
        invariant
            n == m.len(),
            i + rev@.len() == m.len(),
            forall|k: int| 0 <= k < rev@.len() ==> rev@[k] == m[m.len() - 1 - k],
            all@ == start + m.take(i as int),
        decreases rev.len(),
    {
        let t = rev.pop().unwrap();
        assert(m.take(i as int + 1) =~= m.take(i as int).push(t));
        all.push(t);
        i = i + 1;
    }
    assert(m.take(m.len() as int) =~= m);
}

/// The values each tool's schema limits its properties to, in the order of
/// `tool_definitions`.
pub open spec fn all_tool_enums() -> Seq<Seq<(Seq<char>, Jv)>> {
    mailbox::tool_enums() + email::tool_enums() + vacation::tool_enums() + identity::tool_enums()
        + masked_email::tool_enums() + contact::tool_enums()
}

/// The property descriptions of every tool's schema, in the order of `tool_definitions`.
pub open spec fn all_tool_docs() -> Seq<Seq<(Seq<char>, Jv)>> {
    mailbox::tool_docs() + email::tool_docs() + vacation::tool_docs() + identity::tool_docs()
        + masked_email::tool_docs() + contact::tool_docs()
}

/// The declared property types of every tool's schema, in the order of
/// `tool_definitions`.
pub open spec fn all_tool_types() -> Seq<Seq<(Seq<char>, Jv)>> {
    mailbox::tool_types() + email::tool_types() + vacation::tool_types() + identity::tool_types()
        + masked_email::tool_types() + contact::tool_types()
}

/// The property names and required fields of every tool's schema, in the order of
/// `tool_definitions`.
pub open spec fn all_tool_fields() -> Seq<(Seq<Seq<char>>, Seq<Seq<char>>)> {
    mailbox::tool_fields() + email::tool_fields() + vacation::tool_fields() + identity::tool_fields()
        + masked_email::tool_fields() + contact::tool_fields()
}

proof fn lemma_schemas_declare_concat(
    a: Seq<Tool>,
    fa: Seq<(Seq<Seq<char>>, Seq<Seq<char>>)>,
    b: Seq<Tool>,
    fb: Seq<(Seq<Seq<char>>, Seq<Seq<char>>)>,
)
    requires
        schemas_declare(a, fa),
        schemas_declare(b, fb),
    ensures
        schemas_declare(a + b, fa + fb),
{
    assert forall|i: int| 0 <= i < (a + b).len() implies property_names(#[trigger] (a + b)[i].input_schema@)
        == (fa + fb)[i].0.to_set() && required_fields((a + b)[i].input_schema@) == (fa + fb)[i].1
        && (a + b)[i].input_schema@->Obj_0.contains_key("required"@) == ((fa + fb)[i].1.len() > 0) by {
        if i >= a.len() {
            assert((a + b)[i] == b[i - a.len()]);
            assert((fa + fb)[i] == fb[i - a.len()]);
        }
    }
}

/// Every tool the server offers: mailbox, email, vacation, identity, masked email and
/// contact tools, in that order.
pub fn tool_definitions() -> (r: Vec<Tool>)
    ensures
        tool_heads(r@) == mailbox::tool_list() + email::tool_list() + vacation::tool_list()
            + identity::tool_list() + masked_email::tool_list() + contact::tool_list(),
        all_object_schemas(r@),
        schemas_declare(r@, all_tool_fields()),
        schemas_typed(r@, all_tool_types()),
        schemas_described(r@, all_tool_docs()),
        schemas_limited(r@, all_tool_enums()),
{
    let mut tools: Vec<Tool> = Vec::new();
    let ghost f0: Seq<(Seq<Seq<char>>, Seq<Seq<char>>)> = Seq::empty();
    let ghost y0: Seq<Seq<(Seq<char>, Jv)>> = Seq::empty();
    let ghost d0: Seq<Seq<(Seq<char>, Jv)>> = Seq::empty();
    assert(schemas_described(tools@, d0));
    let ghost e0: Seq<Seq<(Seq<char>, Jv)>> = Seq::empty();
    assert(schemas_limited(tools@, e0));
    assert(schemas_declare(tools@, f0));
    assert(schemas_typed(tools@, y0));
    let t1 = mailbox::tools();
    proof {
        lemma_schemas_declare_concat(tools@, f0, t1@, mailbox::tool_fields());
        lemma_schemas_typed_concat(tools@, y0, t1@, mailbox::tool_types());
        lemma_schemas_described_concat(tools@, d0, t1@, mailbox::tool_docs());
        lemma_schemas_limited_concat(tools@, e0, t1@, mailbox::tool_enums());
    }
    let ghost f1 = f0 + mailbox::tool_fields();
    let ghost y1 = y0 + mailbox::tool_types();
    let ghost d1 = d0 + mailbox::tool_docs();
    let ghost e1 = e0 + mailbox::tool_enums();
    extend_tools(&mut tools, t1);
    let t2 = email::tools();
    proof {
        lemma_schemas_declare_concat(tools@, f1, t2@, email::tool_fields());
        lemma_schemas_typed_concat(tools@, y1, t2@, email::tool_types());
        lemma_schemas_described_concat(tools@, d1, t2@, email::tool_docs());
        lemma_schemas_limited_concat(tools@, e1, t2@, email::tool_enums());
    }
    let ghost f2 = f1 + email::tool_fields();
    let ghost y2 = y1 + email::tool_types();
    let ghost d2 = d1 + email::tool_docs();
    let ghost e2 = e1 + email::tool_enums();
    extend_tools(&mut tools, t2);
    let t3 = vacation::tools();
    proof {
        lemma_schemas_declare_concat(tools@, f2, t3@, vacation::tool_fields());
        lemma_schemas_typed_concat(tools@, y2, t3@, vacation::tool_types());
        lemma_schemas_described_concat(tools@, d2, t3@, vacation::tool_docs());
        lemma_schemas_limited_concat(tools@, e2, t3@, vacation::tool_enums());
    }
    let ghost f3 = f2 + vacation::tool_fields();
    let ghost y3 = y2 + vacation::tool_types();
    let ghost d3 = d2 + vacation::tool_docs();
    let ghost e3 = e2 + vacation::tool_enums();
    extend_tools(&mut tools, t3);
    let t4 = identity::tools();
    proof {
        lemma_schemas_declare_concat(tools@, f3, t4@, identity::tool_fields());
        lemma_schemas_typed_concat(tools@, y3, t4@, identity::tool_types());
        lemma_schemas_described_concat(tools@, d3, t4@, identity::tool_docs());
        lemma_schemas_limited_concat(tools@, e3, t4@, identity::tool_enums());
    }
    let ghost f4 = f3 + identity::tool_fields();
    let ghost y4 = y3 + identity::tool_types();
    let ghost d4 = d3 + identity::tool_docs();
    let ghost e4 = e3 + identity::tool_enums();
    extend_tools(&mut tools, t4);
    let t5 = masked_email::tools();
    proof {
        lemma_schemas_declare_concat(tools@, f4, t5@, masked_email::tool_fields());
        lemma_schemas_typed_concat(tools@, y4, t5@, masked_email::tool_types());
        lemma_schemas_described_concat(tools@, d4, t5@, masked_email::tool_docs());
        lemma_schemas_limited_concat(tools@, e4, t5@, masked_email::tool_enums());
    }
    let ghost f5 = f4 + masked_email::tool_fields();
    let ghost y5 = y4 + masked_email::tool_types();
    let ghost d5 = d4 + masked_email::tool_docs();
    let ghost e5 = e4 + masked_email::tool_enums();
    extend_tools(&mut tools, t5);
    let t6 = contact::tools();
    proof {
        lemma_schemas_declare_concat(tools@, f5, t6@, contact::tool_fields());
        lemma_schemas_typed_concat(tools@, y5, t6@, contact::tool_types());
        lemma_schemas_described_concat(tools@, d5, t6@, contact::tool_docs());
        lemma_schemas_limited_concat(tools@, e5, t6@, contact::tool_enums());
    }
    let ghost f6 = f5 + contact::tool_fields();
    let ghost y6 = y5 + contact::tool_types();
    let ghost d6 = d5 + contact::tool_docs();
    let ghost e6 = e5 + contact::tool_enums();
    extend_tools(&mut tools, t6);
    assert(f6 =~= all_tool_fields());
    assert(y6 =~= all_tool_types());
    assert(d6 =~= all_tool_docs());
    assert(e6 =~= all_tool_enums());
    proof {
        assert(tool_heads(tools@) =~= mailbox::tool_list() + email::tool_list() + vacation::tool_list()
            + identity::tool_list() + masked_email::tool_list() + contact::tool_list());
    }
    tools
}

} // verus!
