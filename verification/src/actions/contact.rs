//! Contact tools over JSContact cards (RFC 9553): list address books, list, search,
//! create, update and delete contacts. Cards are read into a flat shape (id, name,
//! emails, phones, company, address books) and written back as JSContact.

use vstd::prelude::*;

use crate::actions::{
    all_object_schemas, check_set_errors, project_fields_array, projection, prop, schema, set_failure,
    str_member_of, string_list_prop, tool_heads, field_texts, prop_names, prop_kinds, description_of, enum_of, prop_docs, prop_enums, schemas_limited, one_of, unlimited, schemas_described, described, type_of, schemas_declare, schemas_typed, typed, Action,
    Context,
};
use crate::error::Error;
use crate::jmap::client::{last_reply, single_failed, one_more, posted, single_ok, single_sent, Exchange, HttpTransport, Exchanged};
use crate::jmap::types::{back_reference, back_reference_json, MethodCall};
use crate::json::{
    bool_map, keys_in_order, member, obj_member, str_member, values_in_order, views, JsonObject, JsonValue, Jv,
};
use crate::mcp::types::Tool;
use crate::text;

verus! {

/// Default result count of `get_contacts`.
pub const DEFAULT_GET_LIMIT: u32 = 50;

/// Default result count of `search_contacts`.
pub const DEFAULT_SEARCH_LIMIT: u32 = 20;

/// The fields of an address book row.
pub const AB_LIST_FIELDS: [&'static str; 4] = ["id", "name", "description", "isDefault"];

// ---------------------------------------------------------------------------------------
// Contexts

/// The context of an address or number.
#[derive(Debug, Clone, Copy, PartialEq, Eq)]
pub enum ContactContext {
    Work,
    Private,
    Other,
}

/// The context a JSContact `contexts` map records: `work` wins over `private`; neither
/// means other.
pub open spec fn context_of_map(m: Map<Seq<char>, Jv>) -> ContactContext {
    if m.contains_key("work"@) {
        ContactContext::Work
    } else if m.contains_key("private"@) {
        ContactContext::Private
    } else {
        ContactContext::Other
    }
}

/// The context an input label names; unknown or absent means other.
pub open spec fn context_of_label(l: Seq<char>) -> ContactContext {
    if l == "work"@ {
        ContactContext::Work
    } else if l == "private"@ {
        ContactContext::Private
    } else {
        ContactContext::Other
    }
}

/// The name of a context in the flat shape.
pub open spec fn context_label(c: ContactContext) -> Seq<char> {
    match c {
        ContactContext::Work => "work"@,
        ContactContext::Private => "private"@,
        ContactContext::Other => "other"@,
    }
}

/// The JSContact `contexts` key of a context (none for other).
pub open spec fn context_key(c: ContactContext) -> Option<Seq<char>> {
    match c {
        ContactContext::Work => Some("work"@),
        ContactContext::Private => Some("private"@),
        ContactContext::Other => None,
    }
}

proof fn lemma_context_words()
    ensures
        "work"@ != "private"@,
{
    reveal_strlit("work");
    reveal_strlit("private");
    assert("work"@.len() != "private"@.len());
}

/// The JSContact `contexts` map a context is written with: its key set to true, or no
/// key for other.
pub open spec fn context_map(c: ContactContext) -> Map<Seq<char>, Jv> {
    match context_key(c) {
        Some(k) => map![k => Jv::Bool(true)],
        None => Map::empty(),
    }
}

/// Each context goes by its own name: `work` for work and `private` for private, both in
/// the flat shape and as the JSContact `contexts` key; the other context is `other` and
/// has no key; an input label names the context of that name, anything else is other.
pub proof fn law_context_names(c: ContactContext, l: Seq<char>)
    ensures
        c is Work ==> context_label(c) == "work"@ && context_key(c) == Some("work"@),
        c is Private ==> context_label(c) == "private"@ && context_key(c) == Some("private"@),
        c is Other ==> context_label(c) == "other"@ && context_key(c) is None,
        context_of_label(l) is Work <==> l == "work"@,
        context_of_label(l) is Private <==> l == "private"@,
{
    lemma_context_words();
}

/// A context survives both of its written forms: its label reads back as it, and so does
/// the `contexts` map it is written with; an entry written for it (see `wire_entry`)
/// carries that map, or no `contexts` at all for other.
pub proof fn law_context_round_trip(c: ContactContext, kind: Seq<char>, field: Seq<char>, value: Seq<char>)
    requires
        field != "contexts"@,
    ensures
        context_of_label(context_label(c)) == c,
        context_of_map(context_map(c)) == c,
        wire_entry(kind, field, value, c) matches Jv::Obj(m) && (if c == ContactContext::Other {
            !m.contains_key("contexts"@)
        } else {
            m.contains_key("contexts"@) && m["contexts"@] == Jv::Obj(context_map(c))
        }),
{
    reveal_strlit("contexts");
    reveal_strlit("@type");
    assert("contexts"@[0] != "@type"@[0]);
    lemma_context_words();
    reveal_strlit("other");
    reveal_strlit("work");
    reveal_strlit("private");
    assert("other"@.len() != "work"@.len());
    assert("other"@[0] != "private"@[0]);
}

impl ContactContext {
    /// The context a JSContact `contexts` map records (see `context_of_map`).
    pub fn from_map(contexts: &JsonObject) -> (r: ContactContext)
        ensures
            r == context_of_map(contexts@),
    {
        if contexts.contains_key("work") {
            ContactContext::Work
        } else if contexts.contains_key("private") {
            ContactContext::Private
        } else {
            ContactContext::Other
        }
    }

    /// The context an input label names (see `context_of_label`).
    pub fn from_label(label: &str) -> (r: ContactContext)
        ensures
            r == context_of_label(label@),
    {
        proof { lemma_context_words(); }
        if text::str_eq(label, "work") {
            ContactContext::Work
        } else if text::str_eq(label, "private") {
            ContactContext::Private
        } else {
            ContactContext::Other
        }
    }

    /// The JSContact `contexts` key of the context, or none for other.
    pub fn wire_key(self) -> (r: Option<&'static str>)
        ensures
            match context_key(self) {
                Some(k) => r matches Some(x) && x@ == k,
                None => r is None,
            },
    {
        match self {
            ContactContext::Work => Some("work"),
            ContactContext::Private => Some("private"),
            ContactContext::Other => None,
        }
    }

    /// The name of the context in the flat shape.
    pub fn label(self) -> (r: &'static str)
        ensures
            r@ == context_label(self),
    {
        match self {
            ContactContext::Work => "work",
            ContactContext::Private => "private",
            ContactContext::Other => "other",
        }
    }
}

// ---------------------------------------------------------------------------------------
// Addresses and numbers

/// An email address of a contact.
#[derive(Debug)]
pub struct ContactEmail {
    context: ContactContext,
    address: String,
}

/// A phone number of a contact.
#[derive(Debug)]
pub struct ContactPhone {
    context: ContactContext,
    number: String,
}

/// A string member of an input object, or empty.
pub open spec fn text_or_empty(v: Jv, k: Seq<char>) -> Seq<char> {
    match str_member_of(v, k) {
        Some(s) => s,
        None => Seq::empty(),
    }
}

/// A string member of an input object, or empty.
fn text_of(v: &JsonValue, k: &str) -> (r: String)
    ensures
        r@ == text_or_empty(v@, k@),
{
    match v.get(k) {
        Some(x) => match x.as_str() {
            Some(s) => text::own(s),
            None => String::new(),
        },
        None => String::new(),
    }
}

/// A JSContact object of `kind` holding `field`, with a `contexts` entry unless the
/// context is other.
pub open spec fn wire_entry(kind: Seq<char>, field: Seq<char>, value: Seq<char>, c: ContactContext) -> Jv {
    let base = map!["@type"@ => Jv::Str(kind), field => Jv::Str(value)];
    Jv::Obj(match context_key(c) {
        Some(k) => base.insert("contexts"@, Jv::Obj(map![k => Jv::Bool(true)])),
        None => base,
    })
}

/// Build a JSContact entry (see `wire_entry`).
fn wire_entry_of(kind: &str, field: &str, value: &str, c: ContactContext) -> (r: JsonValue)
    ensures
        r@ == wire_entry(kind@, field@, value@, c),
{
    proof { JsonValue::Bool(true).lemma_view(); }
    let mut o = JsonObject::new().with("@type", JsonValue::string(kind)).with(field, JsonValue::string(value));
    assert(o@ =~= map!["@type"@ => Jv::Str(kind@), field@ => Jv::Str(value@)]);
    if let Some(k) = c.wire_key() {
        let ctx = JsonObject::new().with(k, JsonValue::Bool(true));
        assert(ctx@ =~= map![k@ => Jv::Bool(true)]);
        o.insert(text::own("contexts"), JsonValue::object(ctx));
    }
    JsonValue::object(o)
}

impl ContactEmail {
    pub closed spec fn context_view(&self) -> ContactContext {
        self.context
    }

    pub closed spec fn address_view(&self) -> Seq<char> {
        self.address@
    }

    /// Read a create/update input object (`{ "type", "address" }`).
    pub fn from_input(v: &JsonValue) -> (r: ContactEmail)
        ensures
            r.context_view() == context_of_label(text_or_empty(v@, "type"@)),
            r.address_view() == text_or_empty(v@, "address"@),
    {
        let label = text_of(v, "type");
        ContactEmail { context: ContactContext::from_label(label.as_str()), address: text_of(v, "address") }
    }

    /// The JSContact `EmailAddress` object.
    pub fn to_wire(&self) -> (r: JsonValue)
        ensures
            r@ == wire_entry("EmailAddress"@, "address"@, self.address_view(), self.context_view()),
    {
        wire_entry_of("EmailAddress", "address", self.address.as_str(), self.context)
    }
}

impl ContactPhone {
    pub closed spec fn context_view(&self) -> ContactContext {
        self.context
    }

    pub closed spec fn number_view(&self) -> Seq<char> {
        self.number@
    }

    /// Read a create/update input object (`{ "type", "number" }`).
    pub fn from_input(v: &JsonValue) -> (r: ContactPhone)
        ensures
            r.context_view() == context_of_label(text_or_empty(v@, "type"@)),
            r.number_view() == text_or_empty(v@, "number"@),
    {
        let label = text_of(v, "type");
        ContactPhone { context: ContactContext::from_label(label.as_str()), number: text_of(v, "number") }
    }

    /// The JSContact `Phone` object.
    pub fn to_wire(&self) -> (r: JsonValue)
        ensures
            r@ == wire_entry("Phone"@, "number"@, self.number_view(), self.context_view()),
    {
        wire_entry_of("Phone", "number", self.number.as_str(), self.context)
    }
}

/// The JSContact map of email addresses: the i-th under key `e{i}`.
pub open spec fn email_map_spec(es: Seq<ContactEmail>) -> Map<Seq<char>, Jv>
    decreases es.len(),
{
    if es.len() == 0 {
        Map::empty()
    } else {
        email_map_spec(es.drop_last()).insert(
            "e"@ + text::decimal((es.len() - 1) as nat),
            wire_entry("EmailAddress"@, "address"@, es.last().address_view(), es.last().context_view()),
        )
    }
}

/// The JSContact map of phone numbers: the i-th under key `p{i}`.
pub open spec fn phone_map_spec(ps: Seq<ContactPhone>) -> Map<Seq<char>, Jv>
    decreases ps.len(),
{
    if ps.len() == 0 {
        Map::empty()
    } else {
        phone_map_spec(ps.drop_last()).insert(
            "p"@ + text::decimal((ps.len() - 1) as nat),
            wire_entry("Phone"@, "number"@, ps.last().number_view(), ps.last().context_view()),
        )
    }
}

/// Build the JSContact emails map (see `email_map_spec`).
pub fn email_map(emails: &[ContactEmail]) -> (r: JsonValue)
    ensures
        r@ == Jv::Obj(email_map_spec(emails@)),
{
    let mut o = JsonObject::new();
    let mut i: usize = 0;
    assert(emails@.take(0) =~= Seq::<ContactEmail>::empty());
    while i < emails.len()
        invariant
            i <= emails@.len(),
            o@ == email_map_spec(emails@.take(i as int)),
        decreases emails.len() - i,
    {
        let key = text::concat("e", text::decimal_string(i as u64).as_str());
        assert(emails@.take(i as int + 1).drop_last() =~= emails@.take(i as int));
        assert(emails@.take(i as int + 1).last() == emails@[i as int]);
        o.insert(key, emails[i].to_wire());
        i = i + 1;
    }
    assert(emails@.take(emails@.len() as int) =~= emails@);
    JsonValue::object(o)
}

/// Build the JSContact phones map (see `phone_map_spec`).
pub fn phone_map(phones: &[ContactPhone]) -> (r: JsonValue)
    ensures
        r@ == Jv::Obj(phone_map_spec(phones@)),
{
    let mut o = JsonObject::new();
    let mut i: usize = 0;
    assert(phones@.take(0) =~= Seq::<ContactPhone>::empty());
    while i < phones.len()
        invariant
            i <= phones@.len(),
            o@ == phone_map_spec(phones@.take(i as int)),
        decreases phones.len() - i,
    {
        let key = text::concat("p", text::decimal_string(i as u64).as_str());
        assert(phones@.take(i as int + 1).drop_last() =~= phones@.take(i as int));
        assert(phones@.take(i as int + 1).last() == phones@[i as int]);
        o.insert(key, phones[i].to_wire());
        i = i + 1;
    }
    assert(phones@.take(phones@.len() as int) =~= phones@);
    JsonValue::object(o)
}

// ---------------------------------------------------------------------------------------
// Reading cards

/// Whether an address or number entry is well formed: an object whose `field` is a string
/// and whose `contexts` maps to booleans (each defaulting when absent).
pub open spec fn entry_ok(v: Jv, field: Seq<char>) -> bool {
    v matches Jv::Obj(m) && str_member(m, field) is Some
        && (obj_member(m, "contexts"@) matches Some(c) && bool_map(c))
}

/// Whether an organization entry is well formed.
pub open spec fn org_ok(v: Jv) -> bool {
    v matches Jv::Obj(m) && str_member(m, "name"@) is Some
}

/// Whether a name component is well formed.
pub open spec fn component_ok(v: Jv) -> bool {
    v matches Jv::Obj(m) && str_member(m, "value"@) is Some
}

/// Whether every entry of map member `k` of `m` is a well-formed address or number.
pub open spec fn entries_ok(m: Map<Seq<char>, Jv>, k: Seq<char>, field: Seq<char>) -> bool {
    obj_member(m, k) matches Some(x) && forall|key: Seq<char>| #[trigger] x.contains_key(key) ==> entry_ok(x[key], field)
}

/// The components of a name object (absent reads as none).
pub open spec fn components(n: Map<Seq<char>, Jv>) -> Seq<Jv> {
    if n.contains_key("components"@) { n["components"@]->Arr_0 } else { Seq::empty() }
}

/// Whether a name is well formed: absent, or an object whose `full` is a string and whose
/// `components` are objects with string values.
pub open spec fn name_ok(m: Map<Seq<char>, Jv>) -> bool {
    obj_member(m, "name"@) matches Some(n) && (str_member(n, "full"@) is Some
        && (!n.contains_key("components"@) || (n["components"@] matches Jv::Arr(cs)
            && forall|i: int| 0 <= i < cs.len() ==> component_ok(#[trigger] cs[i]))))
}

/// Whether a card reads as a JSContact card (every member defaulting when absent).
pub open spec fn card_ok(v: Jv) -> bool {
    v matches Jv::Obj(m) && (str_member(m, "id"@) is Some && name_ok(m)
        && entries_ok(m, "emails"@, "address"@) && entries_ok(m, "phones"@, "number"@)
        && (obj_member(m, "organizations"@) matches Some(o) && forall|key: Seq<char>| #[trigger] o.contains_key(key) ==> org_ok(o[key]))
        && (obj_member(m, "addressBookIds"@) matches Some(a) && bool_map(a)))
}

/// The non-empty values of name components, in order.
pub open spec fn words(cs: Seq<Jv>) -> Seq<Seq<char>>
    decreases cs.len(),
{
    if cs.len() == 0 {
        Seq::empty()
    } else {
        let w = str_member(cs.last()->Obj_0, "value"@)->0;
        if w.len() > 0 { words(cs.drop_last()).push(w) } else { words(cs.drop_last()) }
    }
}

/// Words joined by single spaces.
pub open spec fn join_space(ws: Seq<Seq<char>>) -> Seq<char>
    decreases ws.len(),
{
    if ws.len() == 0 {
        Seq::empty()
    } else if ws.len() == 1 {
        ws[0]
    } else {
        join_space(ws.drop_last()) + " "@ + ws.last()
    }
}

/// The display name of a card: its full name, else its name components joined by spaces.
pub open spec fn card_name(m: Map<Seq<char>, Jv>) -> Seq<char> {
    let n = obj_member(m, "name"@)->0;
    let full = str_member(n, "full"@)->0;
    if full.len() > 0 { full } else { join_space(words(components(n))) }
}

/// The flat entries of a card's address or number map: those with a non-empty `field`, in
/// key order, each as its context and value.
pub open spec fn flat_entries(vals: Seq<Jv>, field: Seq<char>) -> Seq<Jv>
    decreases vals.len(),
{
    if vals.len() == 0 {
        Seq::empty()
    } else {
        let e = vals.last()->Obj_0;
        let a = str_member(e, field)->0;
        if a.len() > 0 {
            flat_entries(vals.drop_last(), field).push(Jv::Obj(map![
                "type"@ => Jv::Str(context_label(context_of_map(obj_member(e, "contexts"@)->0))),
                field => Jv::Str(a)
            ]))
        } else {
            flat_entries(vals.drop_last(), field)
        }
    }
}

/// The flat shape of a well-formed card.
pub open spec fn flat_card(m: Map<Seq<char>, Jv>) -> Jv {
    let orgs = values_in_order(obj_member(m, "organizations"@)->0);
    Jv::Obj(map![
        "id"@ => Jv::Str(str_member(m, "id"@)->0),
        "name"@ => Jv::Str(card_name(m)),
        "emails"@ => Jv::Arr(flat_entries(values_in_order(obj_member(m, "emails"@)->0), "address"@)),
        "phones"@ => Jv::Arr(flat_entries(values_in_order(obj_member(m, "phones"@)->0), "number"@)),
        "company"@ => Jv::Str(if orgs.len() > 0 { str_member(orgs[0]->Obj_0, "name"@)->0 } else { Seq::empty() }),
        "addressBookIds"@ => Jv::Arr(keys_in_order(obj_member(m, "addressBookIds"@)->0).map_values(|k: Seq<char>| Jv::Str(k)))
    ])
}

/// The flat shape of an empty card.
pub open spec fn empty_flat_card() -> Jv {
    Jv::Obj(map![
        "id"@ => Jv::Str(Seq::empty()),
        "name"@ => Jv::Str(Seq::empty()),
        "emails"@ => Jv::Arr(Seq::empty()),
        "phones"@ => Jv::Arr(Seq::empty()),
        "company"@ => Jv::Str(Seq::empty()),
        "addressBookIds"@ => Jv::Arr(Seq::empty())
    ])
}

/// The flat shape of a card: the card's, or an empty card's when it does not read as a
/// JSContact card.
pub open spec fn flat_contact(v: Jv) -> Jv {
    if card_ok(v) { flat_card(v->Obj_0) } else { empty_flat_card() }
}

/// The members of object member `k` (absent reads as empty); `None` when it is not an
/// object.
fn object_member(m: &JsonObject, k: &str) -> (r: Option<JsonObject>)
    ensures
        match r {
            Some(o) => obj_member(m@, k@) == Some(o@),
            None => obj_member(m@, k@) is None,
        },
{
    match m.get(k) {
        None => Some(JsonObject::new()),
        Some(v) => match v.as_object() {
            Some(o) => Some(o.deep_clone()),
            None => None,
        },
    }
}

/// The flat entries of an address or number map; `None` when an entry is malformed.
fn flat_entries_of(o: &JsonObject, field: &str) -> (r: Option<Vec<JsonValue>>)
    ensures
        match r {
            Some(v) => (forall|key: Seq<char>| #[trigger] o@.contains_key(key) ==> entry_ok(o@[key], field@))
                && views(v@) == flat_entries(values_in_order(o@), field@),
            None => !(forall|key: Seq<char>| #[trigger] o@.contains_key(key) ==> entry_ok(o@[key], field@)),
        },
{
    let ms = o.members();
    let ghost vals = values_in_order(o@);
    let mut out: Vec<JsonValue> = Vec::new();
    let mut i: usize = 0;
    assert(vals.take(0) =~= Seq::<Jv>::empty());
    while i < ms.len()
        invariant
            i <= ms@.len(),
            vals.len() == ms@.len(),
            forall|j: int| 0 <= j < ms@.len() ==> vals[j] == (#[trigger] ms@[j]).1@,
            forall|j: int| 0 <= j < ms@.len() ==> #[trigger] o@.contains_key(ms@[j].0@) && o@[ms@[j].0@] == ms@[j].1@,
            forall|k: Seq<char>| #[trigger] o@.contains_key(k) ==> exists|j: int| 0 <= j < ms@.len() && ms@[j].0@ == k,
            forall|j: int| 0 <= j < i ==> entry_ok((#[trigger] ms@[j]).1@, field@),
            views(out@) == flat_entries(vals.take(i as int), field@),
        decreases ms.len() - i,
    {
        let e = &ms[i].1;
        proof {
            assert(vals.take(i as int + 1).drop_last() =~= vals.take(i as int));
            assert(vals.take(i as int + 1).last() == e@);
            assert(o@.contains_key(ms@[i as int].0@));
        }
        let eo = match e.as_object() {
            Some(eo) => eo,
            None => return None,
        };
        let value = match crate::json::read_str(eo, field) {
            Some(s) => s,
            None => return None,
        };
        let contexts = match object_member(eo, "contexts") {
            Some(c) => c,
            None => return None,
        };
        if !contexts.all_bools() {
            return None;
        }
        if !value.as_str().is_empty() {
            let c = ContactContext::from_map(&contexts);
            let flat = JsonValue::object(JsonObject::new()
                .with("type", JsonValue::string(c.label()))
                .with(field, JsonValue::Str(value)));
            proof { JsonValue::Str(value).lemma_view(); }
            assert(flat@->Obj_0 =~= map!["type"@ => Jv::Str(context_label(c)), field@ => Jv::Str(value@)]);
            let ghost before = views(out@);
            out.push(flat);
            assert(views(out@) =~= before.push(flat@));
        }
        i = i + 1;
    }
    proof {
        assert(vals.take(ms@.len() as int) =~= vals);
        assert forall|key: Seq<char>| #[trigger] o@.contains_key(key) implies entry_ok(o@[key], field@) by {
            let j = choose|j: int| 0 <= j < ms@.len() && ms@[j].0@ == key;
            assert(entry_ok(ms@[j].1@, field@));
        }
    }
    Some(out)
}

/// The display name of a card; `None` when its name is malformed.
fn card_name_of(m: &JsonObject) -> (r: Option<String>)
    ensures
        match r {
            Some(s) => name_ok(m@) && s@ == card_name(m@),
            None => !name_ok(m@),
        },
{
    let n = object_member(m, "name")?;
    let full = crate::json::read_str(&n, "full")?;
    let empty: Vec<JsonValue> = Vec::new();
    let cs: &Vec<JsonValue> = match n.get("components") {
        None => &empty,
        Some(c) => match c.as_array() {
            Some(a) => a,
            None => return None,
        },
    };
    let ghost cv = components(n@);
    proof {
        if !n@.contains_key("components"@) {
            assert(views(cs@) =~= cv);
        } else {
            assert(views(cs@) =~= cv);
        }
    }
    let mut name = String::new();
    let mut count: usize = 0;
    let mut i: usize = 0;
    assert(cv.take(0) =~= Seq::<Jv>::empty());
    while i < cs.len()
        invariant
            i <= cs@.len(),
            views(cs@) == cv,
            cv == components(n@),
            n@.contains_key("components"@) ==> n@["components"@] == Jv::Arr(cv),
            obj_member(m@, "name"@) == Some(n@),
            str_member(n@, "full"@) == Some(full@),
            forall|j: int| 0 <= j < i ==> component_ok(#[trigger] cv[j]),
            name@ == join_space(words(cv.take(i as int))),
            count == words(cv.take(i as int)).len(),
            count <= i,
        decreases cs.len() - i,
    {
        let c = &cs[i];
        assert(c@ == cv[i as int]);
        assert(cv.take(i as int + 1).drop_last() =~= cv.take(i as int));
        assert(cv.take(i as int + 1).last() == c@);
        let co = match c.as_object() {
            Some(co) => co,
            None => return None,
        };
        let w = match crate::json::read_str(co, "value") {
            Some(w) => w,
            None => return None,
        };
        if !w.as_str().is_empty() {
            let ghost ws = words(cv.take(i as int));
            if count > 0 {
                name = text::concat3(name.as_str(), " ", w.as_str());
            } else {
                name = w;
            }
            proof {
                let nws = ws.push(w@);
                assert(nws.drop_last() =~= ws);
                if ws.len() == 0 {
                    assert(nws =~= seq![w@]);
                }
            }
            count = count + 1;
        }
        i = i + 1;
    }
    assert(cv.take(cs@.len() as int) =~= cv);
    if !full.as_str().is_empty() {
        Some(full)
    } else {
        Some(name)
    }
}

/// The keys of an object, in order, as JSON strings.
fn key_strings(o: &JsonObject) -> (r: Vec<JsonValue>)
    ensures
        views(r@) == keys_in_order(o@).map_values(|k: Seq<char>| Jv::Str(k)),
{
    let ms = o.members();
    let mut out: Vec<JsonValue> = Vec::new();
    let mut i: usize = 0;
    while i < ms.len()
        invariant
            i <= ms@.len(),
            out@.len() == i,
            forall|j: int| 0 <= j < i ==> (#[trigger] out@[j])@ == Jv::Str(ms@[j].0@),
        decreases ms.len() - i,
    {
        out.push(JsonValue::string(ms[i].0.as_str()));
        i = i + 1;
    }
    proof {
        let ks = keys_in_order(o@);
        assert forall|j: int| 0 <= j < ks.len() implies ks[j] == (#[trigger] ms@[j]).0@ by {}
        assert(views(out@) =~= ks.map_values(|k: Seq<char>| Jv::Str(k)));
    }
    out
}

/// Whether every organization entry is well formed.
fn orgs_ok(orgs: &JsonObject) -> (r: bool)
    ensures
        r == forall|key: Seq<char>| #[trigger] orgs@.contains_key(key) ==> org_ok(orgs@[key]),
{
    let oms = orgs.members();
    let mut i: usize = 0;
    while i < oms.len()
        invariant
            i <= oms@.len(),
            forall|j: int| 0 <= j < oms@.len() ==> #[trigger] orgs@.contains_key(oms@[j].0@) && orgs@[oms@[j].0@] == oms@[j].1@,
            forall|k: Seq<char>| #[trigger] orgs@.contains_key(k) ==> exists|j: int| 0 <= j < oms@.len() && oms@[j].0@ == k,
            forall|j: int| 0 <= j < i ==> org_ok((#[trigger] oms@[j]).1@),
        decreases oms.len() - i,
    {
        let e = &oms[i].1;
        proof { e.lemma_view(); assert(orgs@.contains_key(oms@[i as int].0@)); }
        let ok = match e.as_object() {
            Some(eo) => crate::json::read_str(eo, "name").is_some(),
            None => false,
        };
        if !ok {
            return false;
        }
        i = i + 1;
    }
    proof {
        assert forall|key: Seq<char>| #[trigger] orgs@.contains_key(key) implies org_ok(orgs@[key]) by {
            let j = choose|j: int| 0 <= j < oms@.len() && oms@[j].0@ == key;
            assert(org_ok(oms@[j].1@));
        }
    }
    true
}

/// The flat shape of a card that reads as a JSContact card; `None` otherwise.
fn read_card(card: &JsonValue) -> (r: Option<JsonValue>)
    ensures
        match r {
            Some(v) => card_ok(card@) && v@ == flat_card(card@->Obj_0),
            None => !card_ok(card@),
        },
{
    proof { card.lemma_view(); }
    let m = card.as_object()?;
    let id = crate::json::read_str(m, "id")?;
    let name = card_name_of(m)?;
    let emails_o = object_member(m, "emails")?;
    let emails = flat_entries_of(&emails_o, "address")?;
    let phones_o = object_member(m, "phones")?;
    let phones = flat_entries_of(&phones_o, "number")?;
    let orgs = object_member(m, "organizations")?;
    if !orgs_ok(&orgs) {
        return None;
    }
    let oms = orgs.members();
    let company = if oms.len() > 0 {
        let first = &oms[0].1;
        proof {
            assert(values_in_order(orgs@)[0] == first@);
            assert(orgs@.contains_key(oms@[0].0@));
            assert(org_ok(first@));
        }
        match first.as_object() {
            Some(fo) => match crate::json::read_str(fo, "name") {
                Some(s) => s,
                None => String::new(),
            },
            None => String::new(),
        }
    } else {
        String::new()
    };
    let ab = object_member(m, "addressBookIds")?;
    if !ab.all_bools() {
        return None;
    }
    let ab_ids = key_strings(&ab);
    let ev = JsonValue::array(emails);
    let pv = JsonValue::array(phones);
    let av = JsonValue::array(ab_ids);
    let o = JsonObject::new()
        .with("id", JsonValue::Str(id))
        .with("name", JsonValue::Str(name))
        .with("emails", ev)
        .with("phones", pv)
        .with("company", JsonValue::Str(company))
        .with("addressBookIds", av);
    proof {
        JsonValue::Str(id).lemma_view();
        JsonValue::Str(name).lemma_view();
        JsonValue::Str(company).lemma_view();
        assert(values_in_order(orgs@).len() == oms@.len());
    }
    let r = JsonValue::object(o);
    proof {
        reveal_strlit("id");
        reveal_strlit("name");
        reveal_strlit("emails");
        reveal_strlit("phones");
        reveal_strlit("company");
        reveal_strlit("addressBookIds");
        assert("id"@[0] == 'i' && "name"@[0] == 'n' && "emails"@[0] == 'e' && "phones"@[0] == 'p'
            && "company"@[0] == 'c' && "addressBookIds"@[0] == 'a');
        let fc = flat_card(card@->Obj_0)->Obj_0;
        assert(card@->Obj_0 == m@);
        assert(fc["id"@] == Jv::Str(id@));
        assert(fc["name"@] == Jv::Str(name@));
        assert(fc["emails"@] == ev@);
        assert(fc["phones"@] == pv@);
        assert(fc["company"@] == Jv::Str(company@));
        assert(fc["addressBookIds"@] == av@);
    }
    assert(r@->Obj_0 =~= flat_card(card@->Obj_0)->Obj_0);
    Some(r)
}

/// The flat shape of a JSContact card (see `flat_contact`).
pub fn flatten_contact(card: &JsonValue) -> (r: JsonValue)
    ensures
        r@ == flat_contact(card@),
{
    match read_card(card) {
        Some(v) => v,
        None => {
            let o = JsonObject::new()
                .with("id", JsonValue::string(""))
                .with("name", JsonValue::string(""))
                .with("emails", JsonValue::array(Vec::new()))
                .with("phones", JsonValue::array(Vec::new()))
                .with("company", JsonValue::string(""))
                .with("addressBookIds", JsonValue::array(Vec::new()));
            proof { reveal_strlit(""); }
            assert(""@ =~= Seq::<char>::empty());
            assert(views(Seq::<JsonValue>::empty()) =~= Seq::<Jv>::empty());
            let r = JsonValue::object(o);
            assert(r@->Obj_0 =~= empty_flat_card()->Obj_0);
            r
        },
    }
}

// ---------------------------------------------------------------------------------------
// Tools

/// The names and descriptions of the contact tools.
pub open spec fn tool_list() -> Seq<(Seq<char>, Seq<char>)> {
    seq![
            ("list_address_books"@, "List all address books"@),
            ("get_contacts"@, "Get contacts from an address book"@),
            ("search_contacts"@, "Search contacts by name, email, phone, etc."@),
            ("create_contact"@, "Create a new contact"@),
            ("update_contact"@, "Update an existing contact"@),
            ("delete_contact"@, "Delete a contact"@)
        ]
}

/// The property names and required fields of the contact tools' schemas.
pub open spec fn tool_fields() -> Seq<(Seq<Seq<char>>, Seq<Seq<char>>)> {
    seq![
        (seq![], seq![]),
        (seq!["addressBookId"@, "limit"@], seq![]),
        (seq!["query"@, "limit"@], seq!["query"@]),
        (seq!["name"@, "emails"@, "phones"@, "company"@, "notes"@, "addressBookId"@], seq!["name"@]),
        (seq!["contactId"@, "name"@, "emails"@, "phones"@, "company"@, "notes"@], seq!["contactId"@]),
        (seq!["contactId"@], seq!["contactId"@])
    ]
}

/// The declared types of the properties of the contact tools' schemas.
pub open spec fn tool_types() -> Seq<Seq<(Seq<char>, Jv)>> {
    seq![
        Seq::empty(),
        seq![typed("addressBookId"@, "string"@), typed("limit"@, "integer"@)],
        seq![typed("query"@, "string"@), typed("limit"@, "integer"@)],
        seq![typed("name"@, "string"@),
            typed("emails"@, "array"@),
            typed("phones"@, "array"@),
            typed("company"@, "string"@),
            typed("notes"@, "string"@),
            typed("addressBookId"@, "string"@)],
        seq![typed("contactId"@, "string"@),
            typed("name"@, "string"@),
            typed("emails"@, "array"@),
            typed("phones"@, "array"@),
            typed("company"@, "string"@),
            typed("notes"@, "string"@)],
        seq![typed("contactId"@, "string"@)]
    ]
}

/// The descriptions of the properties of the contact tools' schemas.
pub open spec fn tool_docs() -> Seq<Seq<(Seq<char>, Jv)>> {
    seq![
        Seq::<(Seq<char>, Jv)>::empty(),
        seq![
            described("addressBookId"@, "Filter by address book ID"@),
            described("limit"@, "Max results (default 50)"@)
        ],
        seq![
            described("query"@, "Search text (searches all fields)"@),
            described("limit"@, "Max results (default 20)"@)
        ],
        seq![
            described("name"@, "Full name"@),
            described("emails"@, "Email addresses"@),
            described("phones"@, "Phone numbers"@),
            described("company"@, "Organization name"@),
            described("notes"@, "Free-text notes"@),
            described("addressBookId"@, "Target address book (default if omitted)"@)
        ],
        seq![
            described("contactId"@, "Contact ID"@),
            described("name"@, "Updated full name"@),
            described("emails"@, "Updated email addresses (replaces all)"@),
            described("phones"@, "Updated phone numbers (replaces all)"@),
            described("company"@, "Updated organization name"@),
            described("notes"@, "Updated notes"@)
        ],
        seq![described("contactId"@, "Contact ID to delete"@)]
    ]
}

/// The values the properties of the contact tools' schemas are limited to.
pub open spec fn tool_enums() -> Seq<Seq<(Seq<char>, Jv)>> {
    seq![
        Seq::<(Seq<char>, Jv)>::empty(),
        seq![unlimited("addressBookId"@), unlimited("limit"@)],
        seq![unlimited("query"@), unlimited("limit"@)],
        seq![
            unlimited("name"@),
            unlimited("emails"@),
            unlimited("phones"@),
            unlimited("company"@),
            unlimited("notes"@),
            unlimited("addressBookId"@)
        ],
        seq![
            unlimited("contactId"@),
            unlimited("name"@),
            unlimited("emails"@),
            unlimited("phones"@),
            unlimited("company"@),
            unlimited("notes"@)
        ],
        seq![unlimited("contactId"@)]
    ]
}

/// The contact tools.
pub fn tools() -> (r: Vec<Tool>)
    ensures
        tool_heads(r@) == tool_list(),
        all_object_schemas(r@),
        schemas_declare(r@, tool_fields()),
        schemas_typed(r@, tool_types()),
        schemas_described(r@, tool_docs()),
        schemas_limited(r@, tool_enums()),
{
    let none: [&str; 0] = [];
    proof { assert(field_texts(none@) =~= Seq::<Seq<char>>::empty()); }
    let list_props: Vec<(&str, JsonValue)> = Vec::new();
    proof {
        assert(prop_names(list_props@) =~= Seq::<Seq<char>>::empty());
        assert(prop_kinds(list_props@) =~= Seq::<(Seq<char>, Jv)>::empty());
    }
    let list = Tool::new("list_address_books", "List all address books", schema(list_props, none.as_slice()));
    let get_props = vec![
        ("addressBookId", prop("string", "Filter by address book ID")),
        ("limit", prop("integer", "Max results (default 50)")),
    ];
    proof {
        assert(prop_names(get_props@) =~= seq!["addressBookId"@, "limit"@]);
        assert(prop_docs(list_props@) =~= Seq::<(Seq<char>, Jv)>::empty());
        assert(prop_enums(list_props@) =~= Seq::<(Seq<char>, Jv)>::empty());
        assert(prop_kinds(get_props@) =~= seq![typed("addressBookId"@, "string"@),
            typed("limit"@, "integer"@)]);
        assert(prop_docs(get_props@) =~= seq![
            described("addressBookId"@, "Filter by address book ID"@),
            described("limit"@, "Max results (default 50)"@)
        ]);
        assert(prop_enums(get_props@) =~= seq![unlimited("addressBookId"@), unlimited("limit"@)]);
    }
    let get = Tool::new("get_contacts", "Get contacts from an address book", schema(get_props, none.as_slice()));
    let search_required: [&str; 1] = ["query"];
    let search_props = vec![
        ("query", prop("string", "Search text (searches all fields)")),
        ("limit", prop("integer", "Max results (default 20)")),
    ];
    proof {
        assert(prop_names(search_props@) =~= seq!["query"@, "limit"@]);
        assert(prop_kinds(search_props@) =~= seq![typed("query"@, "string"@), typed("limit"@, "integer"@)]);
        assert(prop_docs(search_props@) =~= seq![
            described("query"@, "Search text (searches all fields)"@),
            described("limit"@, "Max results (default 20)"@)
        ]);
        assert(prop_enums(search_props@) =~= seq![unlimited("query"@), unlimited("limit"@)]);
        assert(field_texts(search_required@) =~= seq!["query"@]);
    }
    let search = Tool::new("search_contacts", "Search contacts by name, email, phone, etc.", schema(search_props, search_required.as_slice()));
    let address_required: [&str; 1] = ["address"];
    let number_required: [&str; 1] = ["number"];
    let create_emails = entry_list_schema("Email addresses", vec![
        ("type", prop("string", "work, private, or other")),
        ("address", prop("string", "Email address")),
    ], address_required.as_slice());
    let create_phones = entry_list_schema("Phone numbers", vec![
        ("type", prop("string", "work, private, or other")),
        ("number", prop("string", "Phone number")),
    ], number_required.as_slice());
    let create_required: [&str; 1] = ["name"];
    let create_props = vec![
        ("name", prop("string", "Full name")),
        ("emails", create_emails),
        ("phones", create_phones),
        ("company", prop("string", "Organization name")),
        ("notes", prop("string", "Free-text notes")),
        ("addressBookId", prop("string", "Target address book (default if omitted)")),
    ];
    proof {
        assert(prop_names(create_props@) =~= seq!["name"@, "emails"@, "phones"@, "company"@, "notes"@, "addressBookId"@]);
        assert(prop_kinds(create_props@) =~= seq![typed("name"@, "string"@),
            typed("emails"@, "array"@),
            typed("phones"@, "array"@),
            typed("company"@, "string"@),
            typed("notes"@, "string"@),
            typed("addressBookId"@, "string"@)]);
        assert(prop_docs(create_props@) =~= seq![
            described("name"@, "Full name"@),
            described("emails"@, "Email addresses"@),
            described("phones"@, "Phone numbers"@),
            described("company"@, "Organization name"@),
            described("notes"@, "Free-text notes"@),
            described("addressBookId"@, "Target address book (default if omitted)"@)
        ]);
        assert(prop_enums(create_props@) =~= seq![
            unlimited("name"@),
            unlimited("emails"@),
            unlimited("phones"@),
            unlimited("company"@),
            unlimited("notes"@),
            unlimited("addressBookId"@)
        ]);
        assert(field_texts(create_required@) =~= seq!["name"@]);
    }
    let create = Tool::new("create_contact", "Create a new contact", schema(create_props, create_required.as_slice()));
    let update_emails = entry_list_schema("Updated email addresses (replaces all)", vec![
        ("type", type_only("string")),
        ("address", type_only("string")),
    ], address_required.as_slice());
    let update_phones = entry_list_schema("Updated phone numbers (replaces all)", vec![
        ("type", type_only("string")),
        ("number", type_only("string")),
    ], number_required.as_slice());
    let id_required: [&str; 1] = ["contactId"];
    let update_props = vec![
        ("contactId", prop("string", "Contact ID")),
        ("name", prop("string", "Updated full name")),
        ("emails", update_emails),
        ("phones", update_phones),
        ("company", prop("string", "Updated organization name")),
        ("notes", prop("string", "Updated notes")),
    ];
    proof {
        assert(prop_names(update_props@) =~= seq!["contactId"@, "name"@, "emails"@, "phones"@, "company"@, "notes"@]);
        assert(prop_kinds(update_props@) =~= seq![typed("contactId"@, "string"@),
            typed("name"@, "string"@),
            typed("emails"@, "array"@),
            typed("phones"@, "array"@),
            typed("company"@, "string"@),
            typed("notes"@, "string"@)]);
        assert(prop_docs(update_props@) =~= seq![
            described("contactId"@, "Contact ID"@),
            described("name"@, "Updated full name"@),
            described("emails"@, "Updated email addresses (replaces all)"@),
            described("phones"@, "Updated phone numbers (replaces all)"@),
            described("company"@, "Updated organization name"@),
            described("notes"@, "Updated notes"@)
        ]);
        assert(prop_enums(update_props@) =~= seq![
            unlimited("contactId"@),
            unlimited("name"@),
            unlimited("emails"@),
            unlimited("phones"@),
            unlimited("company"@),
            unlimited("notes"@)
        ]);
        assert(field_texts(id_required@) =~= seq!["contactId"@]);
    }
    let update = Tool::new("update_contact", "Update an existing contact", schema(update_props, id_required.as_slice()));
    let delete_props = vec![("contactId", prop("string", "Contact ID to delete"))];
    proof {
        assert(prop_names(delete_props@) =~= seq!["contactId"@]);
        assert(prop_kinds(delete_props@) =~= seq![typed("contactId"@, "string"@)]);
        assert(prop_docs(delete_props@) =~= seq![described("contactId"@, "Contact ID to delete"@)]);
        assert(prop_enums(delete_props@) =~= seq![unlimited("contactId"@)]);
    }
    let delete = Tool::new("delete_contact", "Delete a contact", schema(delete_props, id_required.as_slice()));
    let r = vec![list, get, search, create, update, delete];
    assert(tool_heads(r@) =~= seq![
        ("list_address_books"@, "List all address books"@),
        ("get_contacts"@, "Get contacts from an address book"@),
        ("search_contacts"@, "Search contacts by name, email, phone, etc."@),
        ("create_contact"@, "Create a new contact"@),
        ("update_contact"@, "Update an existing contact"@),
        ("delete_contact"@, "Delete a contact"@)
    ]);
    r
}

/// A schema naming only a type.
fn type_only(ty: &str) -> (r: JsonValue)
    ensures
        r@ == Jv::Obj(map!["type"@ => Jv::Str(ty@)]),
{
    let r = JsonValue::object(JsonObject::new().with("type", JsonValue::string(ty)));
    assert(r@->Obj_0 =~= map!["type"@ => Jv::Str(ty@)]);
    r
}

/// The schema of a list of entry objects.
fn entry_list_schema(desc: &str, props: Vec<(&str, JsonValue)>, required: &[&str]) -> (r: JsonValue)
    ensures
        r@ is Obj,
        type_of(r@) == Jv::Str("array"@),
        description_of(r@) == Jv::Str(desc@),
        enum_of(r@) == Jv::Null,
{
    proof { crate::actions::lemma_type_key(); }
    JsonValue::object(JsonObject::new()
        .with("type", JsonValue::string("array"))
        .with("items", schema(props, required))
        .with("description", JsonValue::string(desc)))
}

// ---------------------------------------------------------------------------------------
// Actions

/// Every address book, as id, name, description and whether it is the default.
pub struct ListAddressBooks;

/// The address book rows of an `AddressBook/get` result.
pub open spec fn address_book_rows(data: Jv) -> Jv {
    crate::present::project_rows(
        match member(data, "list"@) {
            Some(l) => l,
            None => Jv::Arr(Seq::empty()),
        },
        seq!["id"@, "name"@, "description"@, "isDefault"@],
    )
}

/// The address book rows of an `AddressBook/get` result (see `address_book_rows`).
pub fn address_books_from(data: &JsonValue) -> (r: JsonValue)
    ensures
        r@ == address_book_rows(data@),
{
    let fields: &[&str] = &AB_LIST_FIELDS;
    assert(crate::actions::field_texts(fields@) =~= seq!["id"@, "name"@, "description"@, "isDefault"@]);
    let empty = JsonValue::array(Vec::new());
    assert(views(Seq::<JsonValue>::empty()) =~= Seq::<Jv>::empty());
    let list = match data.get("list") {
        Some(l) => l,
        None => &empty,
    };
    project_fields_array(list, fields)
}

impl ListAddressBooks {
    /// What running this action does, the exchanges it makes taking the log from
    /// `before` to `after` (see `run`).
    pub open spec fn outcome(self, ctx: Context, before: Seq<Exchanged>, after: Seq<Exchanged>, r: Result<JsonValue, Error>) -> bool {
        &&& (single_sent(ctx.jmap, before, after, "urn:ietf:params:jmap:contacts"@, "AddressBook/get"@,
            Jv::Obj(map!["accountId"@ => Jv::Str(ctx.account_id@)])))
        &&& (match single_ok("AddressBook/get"@, last_reply(after)) {
            Some(j) => r matches Ok(v) && v@ == address_book_rows(j),
            None => (r matches Err(e) && single_failed("AddressBook/get"@, last_reply(after), e)),
        })
    }
}

impl Action for ListAddressBooks {
    fn run<T: HttpTransport>(&self, ctx: &Context, t: &mut Exchange<T>) -> (r: Result<JsonValue, Error>)
        ensures
            self.outcome(*ctx, old(t).log(), final(t).log(), r),
    {
        let args = crate::jmap::account_args(ctx.account_id.as_str());
        match ctx.jmap.call_one(t, "urn:ietf:params:jmap:contacts", "AddressBook/get", args) {
            Ok(data) => Ok(address_books_from(&data)),
            Err(e) => Err(e),
        }
    }
}

/// The two calls of a contact listing: a query for `filter`, newest first, then a get of
/// its result.
pub open spec fn contact_calls(account_id: Seq<char>, filter: Jv, limit: u32) -> Seq<(Seq<char>, Jv, Seq<char>)> {
    seq![
        ("ContactCard/query"@, Jv::Obj(map![
            "accountId"@ => Jv::Str(account_id),
            "filter"@ => filter,
            "sort"@ => Jv::Arr(seq![Jv::Obj(map!["property"@ => Jv::Str("updated"@), "isAscending"@ => Jv::Bool(false)])]),
            "limit"@ => Jv::UInt(limit as u64)
        ]), "call-0"@),
        ("ContactCard/get"@, Jv::Obj(map![
            "accountId"@ => Jv::Str(account_id),
            "#ids"@ => back_reference_json("call-0"@, "ContactCard/query"@, "/ids"@)
        ]), "call-1"@)
    ]
}

/// The calls of a contact listing (see `contact_calls`).
pub fn contact_list_calls(account_id: &str, filter: JsonValue, limit: u32) -> (r: Vec<MethodCall>)
    ensures
        crate::actions::email::calls_of(r@) == contact_calls(account_id@, filter@, limit),
{
    let ghost fv = filter@;
    proof { JsonValue::Bool(false).lemma_view(); JsonValue::UInt(limit as u64).lemma_view(); }
    let order = JsonValue::object(JsonObject::new()
        .with("property", JsonValue::string("updated"))
        .with("isAscending", JsonValue::Bool(false)));
    assert(order@->Obj_0 =~= map!["property"@ => Jv::Str("updated"@), "isAscending"@ => Jv::Bool(false)]);
    let query = JsonValue::object(JsonObject::new()
        .with("accountId", JsonValue::string(account_id))
        .with("filter", filter)
        .with("sort", JsonValue::single(order))
        .with("limit", JsonValue::UInt(limit as u64)));
    let get = JsonValue::object(JsonObject::new()
        .with("accountId", JsonValue::string(account_id))
        .with("#ids", back_reference("call-0", "ContactCard/query", "/ids")));
    let r = vec![
        (text::own("ContactCard/query"), query, text::own("call-0")),
        (text::own("ContactCard/get"), get, text::own("call-1")),
    ];
    assert(crate::actions::email::calls_of(r@) =~= contact_calls(account_id@, fv, limit));
    r
}

/// The flat contacts of a listing response: each card of the `ContactCard/get` list
/// flattened (none when there is no list).
pub open spec fn listed_contacts(rs: Seq<(Seq<char>, Jv, Seq<char>)>) -> Jv {
    match crate::actions::email::first_named(rs, "ContactCard/get"@) {
        Some(data) => match member(data, "list"@) {
            Some(Jv::Arr(a)) => Jv::Arr(a.map_values(|c: Jv| flat_contact(c))),
            _ => Jv::Arr(Seq::empty()),
        },
        None => Jv::Arr(Seq::empty()),
    }
}

/// The flat contacts of a listing response (see `listed_contacts`).
pub fn contacts_from(resp: &crate::jmap::types::JmapResponse) -> (r: JsonValue)
    ensures
        r@ == listed_contacts(resp.responses_view()),
{
    let mut out: Vec<JsonValue> = Vec::new();
    if let Some(data) = crate::actions::email::find_response(resp, "ContactCard/get") {
        if let Some(l) = data.get("list") {
            if let Some(a) = l.as_array() {
                let mut i: usize = 0;
                while i < a.len()
                    invariant
                        i <= a.len(),
                        out@.len() == i,
                        forall|j: int| 0 <= j < i ==> (#[trigger] out@[j])@ == flat_contact(a@[j]@),
                    decreases a.len() - i,
                {
                    out.push(flatten_contact(&a[i]));
                    i = i + 1;
                }
                let r = JsonValue::array(out);
                assert(views(out@) =~= l@->Arr_0.map_values(|c: Jv| flat_contact(c)));
                return r;
            }
        }
    }
    let r = JsonValue::array(out);
    assert(views(out@) =~= Seq::<Jv>::empty());
    r
}

/// What a contact listing exchange gives for its reply: the transport's error, a JSON
/// error for a document that is no JMAP response, or the flat contacts it lists.
pub open spec fn listing_outcome(reply: Result<Jv, Error>, r: Result<JsonValue, Error>) -> bool {
    match reply {
        Err(e) => r matches Err(x) && x == e,
        Ok(j) => match crate::jmap::types::decode_response(j) {
            None => r matches Err(e) && e is Json,
            Some((rs, _)) => r matches Ok(v) && v@ == listed_contacts(rs),
        },
    }
}

/// Query cards matching `filter` and return them flattened: one exchange of the two
/// listing calls (see `contact_calls`).
fn query_and_flatten<T: HttpTransport>(ctx: &Context, t: &mut Exchange<T>, filter: JsonValue, limit: u32) -> (r: Result<JsonValue, Error>)
    ensures
        one_more(old(t).log(), final(t).log()),
        posted(final(t).log(), ctx.jmap.api_url_view(), ctx.jmap.token_view(), crate::jmap::types::request_json(
            seq!["urn:ietf:params:jmap:core"@, "urn:ietf:params:jmap:contacts"@], contact_calls(ctx.account_id@, filter@, limit))),
        listing_outcome(last_reply(final(t).log()), r),
{
    let calls = contact_list_calls(ctx.account_id.as_str(), filter, limit);
    let using = vec![text::own("urn:ietf:params:jmap:core"), text::own("urn:ietf:params:jmap:contacts")];
    proof { assert(crate::json::texts(using@) =~= seq!["urn:ietf:params:jmap:core"@, "urn:ietf:params:jmap:contacts"@]); }
    match ctx.jmap.call(t, using, calls) {
        Ok(resp) => Ok(contacts_from(&resp)),
        Err(e) => Err(e),
    }
}

/// The filter of a contact listing: the address book, when one is given.
pub open spec fn book_filter(address_book_id: Seq<char>) -> Jv {
    if address_book_id.len() > 0 {
        Jv::Obj(map!["inAddressBook"@ => Jv::Str(address_book_id)])
    } else {
        Jv::Obj(Map::empty())
    }
}

/// Contacts of an address book (all when none is given).
pub struct GetContacts {
    pub address_book_id: String,
    pub limit: u32,
}

impl GetContacts {
    /// What running this action does, the exchanges it makes taking the log from
    /// `before` to `after` (see `run`).
    pub open spec fn outcome(self, ctx: Context, before: Seq<Exchanged>, after: Seq<Exchanged>, r: Result<JsonValue, Error>) -> bool {
        &&& (one_more(before, after))
        &&& (posted(after, ctx.jmap.api_url_view(), ctx.jmap.token_view(), crate::jmap::types::request_json(
            seq!["urn:ietf:params:jmap:core"@, "urn:ietf:params:jmap:contacts"@],
            contact_calls(ctx.account_id@, book_filter(self.address_book_id@),
                if self.limit == 0 { DEFAULT_GET_LIMIT } else { self.limit }))))
        &&& (listing_outcome(last_reply(after), r))
    }
}

impl Action for GetContacts {
    fn run<T: HttpTransport>(&self, ctx: &Context, t: &mut Exchange<T>) -> (r: Result<JsonValue, Error>)
        ensures
            self.outcome(*ctx, old(t).log(), final(t).log(), r),
    {
        let limit = if self.limit == 0 { DEFAULT_GET_LIMIT } else { self.limit };
        let mut filter = JsonObject::new();
        if !self.address_book_id.as_str().is_empty() {
            filter.insert(text::own("inAddressBook"), JsonValue::string(self.address_book_id.as_str()));
        }
        let f = JsonValue::object(filter);
        assert(f@ =~= book_filter(self.address_book_id@));
        query_and_flatten(ctx, t, f, limit)
    }
}

/// Contacts matching a text.
pub struct SearchContacts {
    pub query: String,
    pub limit: u32,
}

/// What a `ContactCard/set` result `j` gives a create: its failure, else the id of the
/// created card (see `created_contact_from`).
pub open spec fn created_outcome(j: Jv, r: Result<JsonValue, Error>) -> bool {
    match set_failure(j) {
        Some(msg) => r matches Err(Error::Jmap { method, message }) && method@ == "ContactCard/set"@ && message@ == msg,
        None => r matches Ok(v) && v@ == Jv::Obj(map!["contactId"@ => created_contact_id(j)]),
    }
}

/// What a `ContactCard/set` result `j` gives an update or delete: its failure, else
/// `{"success": true}` (see `contact_set_ok`).
pub open spec fn changed_outcome(j: Jv, r: Result<JsonValue, Error>) -> bool {
    match set_failure(j) {
        Some(msg) => r matches Err(Error::Jmap { method, message }) && method@ == "ContactCard/set"@ && message@ == msg,
        None => r matches Ok(v) && v@ == Jv::Obj(map!["success"@ => Jv::Bool(true)]),
    }
}

/// Whether the log grew by the one `ContactCard/set` with `args`, and `r` is what `outcome`
/// makes of its result (an error when there is none).
pub open spec fn card_set(
    c: crate::jmap::client::JmapClient,
    before: Seq<crate::jmap::client::Exchanged>,
    after: Seq<crate::jmap::client::Exchanged>,
    args: Jv,
    created: bool,
    r: Result<JsonValue, Error>,
) -> bool {
    &&& single_sent(c, before, after, "urn:ietf:params:jmap:contacts"@, "ContactCard/set"@, args)
    &&& match single_ok("ContactCard/set"@, last_reply(after)) {
        Some(j) => if created { created_outcome(j, r) } else { changed_outcome(j, r) },
        None => (r matches Err(e) && single_failed("ContactCard/set"@, last_reply(after), e)),
    }
}

impl SearchContacts {
    /// What running this action does, the exchanges it makes taking the log from
    /// `before` to `after` (see `run`).
    pub open spec fn outcome(self, ctx: Context, before: Seq<Exchanged>, after: Seq<Exchanged>, r: Result<JsonValue, Error>) -> bool {
        &&& (self.query@.len() == 0 ==> (r matches Err(Error::InvalidParams(m)) && m@ == "query is required"@
            && after == before))
        &&& (self.query@.len() > 0 ==> one_more(before, after)
            && posted(after, ctx.jmap.api_url_view(), ctx.jmap.token_view(), crate::jmap::types::request_json(
                seq!["urn:ietf:params:jmap:core"@, "urn:ietf:params:jmap:contacts"@],
                contact_calls(ctx.account_id@, Jv::Obj(map!["text"@ => Jv::Str(self.query@)]),
                    if self.limit == 0 { DEFAULT_SEARCH_LIMIT } else { self.limit })))
            && listing_outcome(last_reply(after), r))
    }
}

impl Action for SearchContacts {
    fn run<T: HttpTransport>(&self, ctx: &Context, t: &mut Exchange<T>) -> (r: Result<JsonValue, Error>)
        ensures
            self.outcome(*ctx, old(t).log(), final(t).log(), r),
    {
        if self.query.as_str().is_empty() {
            return Err(Error::invalid("query is required"));
        }
        let limit = if self.limit == 0 { DEFAULT_SEARCH_LIMIT } else { self.limit };
        let filter = JsonValue::object(JsonObject::new().with("text", JsonValue::string(self.query.as_str())));
        assert(filter@->Obj_0 =~= map!["text"@ => Jv::Str(self.query@)]);
        query_and_flatten(ctx, t, filter, limit)
    }
}

/// A new contact.
pub struct CreateContact {
    pub name: String,
    pub emails: Vec<ContactEmail>,
    pub phones: Vec<ContactPhone>,
    pub company: String,
    pub notes: String,
    pub address_book_id: String,
}

/// The JSContact organizations map of a company.
pub open spec fn org_map(company: Seq<char>) -> Jv {
    Jv::Obj(map!["o0"@ => Jv::Obj(map!["@type"@ => Jv::Str("Organization"@), "name"@ => Jv::Str(company)])])
}

/// The JSContact name of a full name.
pub open spec fn name_jv(full: Seq<char>) -> Jv {
    Jv::Obj(map!["@type"@ => Jv::Str("Name"@), "full"@ => Jv::Str(full)])
}

/// The card a new contact becomes: its name, and its addresses, numbers, company, notes
/// and address book when given.
pub open spec fn new_card(c: CreateContact) -> Jv {
    let m0 = map!["@type"@ => Jv::Str("Card"@), "version"@ => Jv::Str("1.0"@), "name"@ => name_jv(c.name@)];
    let m1 = if c.emails@.len() > 0 { m0.insert("emails"@, Jv::Obj(email_map_spec(c.emails@))) } else { m0 };
    let m2 = if c.phones@.len() > 0 { m1.insert("phones"@, Jv::Obj(phone_map_spec(c.phones@))) } else { m1 };
    let m3 = if c.company@.len() > 0 { m2.insert("organizations"@, org_map(c.company@)) } else { m2 };
    let m4 = if c.notes@.len() > 0 { m3.insert("notes"@, Jv::Str(c.notes@)) } else { m3 };
    Jv::Obj(if c.address_book_id@.len() > 0 { m4.insert("addressBookIds"@, Jv::Obj(map![c.address_book_id@ => Jv::Bool(true)])) } else { m4 })
}

/// The JSContact organizations map of a company.
fn org_map_of(company: &str) -> (r: JsonValue)
    ensures
        r@ == org_map(company@),
{
    let org = JsonValue::object(JsonObject::new()
        .with("@type", JsonValue::string("Organization"))
        .with("name", JsonValue::string(company)));
    assert(org@->Obj_0 =~= map!["@type"@ => Jv::Str("Organization"@), "name"@ => Jv::Str(company@)]);
    let r = JsonValue::object(JsonObject::new().with("o0", org));
    assert(r@->Obj_0 =~= org_map(company@)->Obj_0);
    r
}

/// The JSContact name of a full name.
fn name_of(full: &str) -> (r: JsonValue)
    ensures
        r@ == name_jv(full@),
{
    let r = JsonValue::object(JsonObject::new()
        .with("@type", JsonValue::string("Name"))
        .with("full", JsonValue::string(full)));
    assert(r@->Obj_0 =~= name_jv(full@)->Obj_0);
    r
}

/// The contact id a `ContactCard/set` create result reports (null when absent).
pub open spec fn created_contact_id(data: Jv) -> Jv {
    match member(data, "created"@) {
        Some(c) => match member(c, "new-contact"@) {
            Some(x) => match member(x, "id"@) {
                Some(id) => id,
                None => Jv::Null,
            },
            None => Jv::Null,
        },
        None => Jv::Null,
    }
}

impl CreateContact {
    /// The card this contact becomes (see `new_card`).
    pub fn card(&self) -> (r: JsonValue)
        ensures
            r@ == new_card(*self),
    {
        proof { JsonValue::Bool(true).lemma_view(); }
        let mut o = JsonObject::new()
            .with("@type", JsonValue::string("Card"))
            .with("version", JsonValue::string("1.0"))
            .with("name", name_of(self.name.as_str()));
        assert(o@ =~= map!["@type"@ => Jv::Str("Card"@), "version"@ => Jv::Str("1.0"@), "name"@ => name_jv(self.name@)]);
        if self.emails.len() > 0 {
            o.insert(text::own("emails"), email_map(self.emails.as_slice()));
        }
        if self.phones.len() > 0 {
            o.insert(text::own("phones"), phone_map(self.phones.as_slice()));
        }
        if !self.company.as_str().is_empty() {
            o.insert(text::own("organizations"), org_map_of(self.company.as_str()));
        }
        if !self.notes.as_str().is_empty() {
            o.insert(text::own("notes"), JsonValue::string(self.notes.as_str()));
        }
        if !self.address_book_id.as_str().is_empty() {
            let ab = JsonObject::new().with(self.address_book_id.as_str(), JsonValue::Bool(true));
            assert(ab@ =~= map![self.address_book_id@ => Jv::Bool(true)]);
            o.insert(text::own("addressBookIds"), JsonValue::object(ab));
        }
        JsonValue::object(o)
    }
}

/// What a `ContactCard/set` create result yields: its failure, else the new contact's id.
pub fn created_contact_from(data: &JsonValue) -> (r: Result<JsonValue, Error>)
    ensures
        match set_failure(data@) {
            Some(msg) => r matches Err(Error::Jmap { method, message }) && method@ == "ContactCard/set"@ && message@ == msg,
            None => r matches Ok(v) && v@ == Jv::Obj(map!["contactId"@ => created_contact_id(data@)]),
        },
{
    check_set_errors(data, "ContactCard/set")?;
    proof { JsonValue::Null.lemma_view(); }
    let id = match data.get("created") {
        Some(c) => match c.get("new-contact") {
            Some(x) => match x.get("id") {
                Some(i) => i.deep_clone(),
                None => JsonValue::Null,
            },
            None => JsonValue::Null,
        },
        None => JsonValue::Null,
    };
    let r = JsonValue::object(JsonObject::new().with("contactId", id));
    assert(r@->Obj_0 =~= map!["contactId"@ => created_contact_id(data@)]);
    Ok(r)
}

impl CreateContact {
    /// What running this action does, the exchanges it makes taking the log from
    /// `before` to `after` (see `run`).
    pub open spec fn outcome(self, ctx: Context, before: Seq<Exchanged>, after: Seq<Exchanged>, r: Result<JsonValue, Error>) -> bool {
        &&& (self.name@.len() == 0 ==> (r matches Err(Error::InvalidParams(m)) && m@ == "name is required"@
            && after == before))
        &&& (self.name@.len() > 0 ==> card_set(ctx.jmap, before, after, Jv::Obj(map![
            "accountId"@ => Jv::Str(ctx.account_id@),
            "create"@ => Jv::Obj(map!["new-contact"@ => new_card(self)])
            ]), true, r))
    }
}

impl Action for CreateContact {
    fn run<T: HttpTransport>(&self, ctx: &Context, t: &mut Exchange<T>) -> (r: Result<JsonValue, Error>)
        ensures
            self.outcome(*ctx, old(t).log(), final(t).log(), r),
    {
        if self.name.as_str().is_empty() {
            return Err(Error::invalid("name is required"));
        }
        let create = JsonValue::object(JsonObject::new().with("new-contact", self.card()));
        assert(create@->Obj_0 =~= map!["new-contact"@ => new_card(*self)]);
        let args = JsonValue::object(JsonObject::new()
            .with("accountId", JsonValue::string(ctx.account_id.as_str()))
            .with("create", create));
        assert(args@->Obj_0 =~= map!["accountId"@ => Jv::Str(ctx.account_id@), "create"@ => create@]);
        match ctx.jmap.call_one(t, "urn:ietf:params:jmap:contacts", "ContactCard/set", args) {
            Ok(data) => created_contact_from(&data),
            Err(e) => Err(e),
        }
    }
}

/// A partial contact update: `None` leaves a field unchanged, `Some` sets it (an empty
/// company or notes clears it).
#[derive(Debug)]
pub struct ContactPatch {
    pub name: Option<String>,
    pub emails: Option<Vec<ContactEmail>>,
    pub phones: Option<Vec<ContactPhone>>,
    pub company: Option<String>,
    pub notes: Option<String>,
}

impl Default for ContactPatch {
    fn default() -> (r: Self)
        ensures
            r.name is None && r.emails is None && r.phones is None && r.company is None && r.notes is None,
    {
        ContactPatch { name: None, emails: None, phones: None, company: None, notes: None }
    }
}

/// The JSContact patch of an update.
pub open spec fn patch_spec(p: ContactPatch) -> Map<Seq<char>, Jv> {
    let m1 = match p.name { Some(n) => Map::empty().insert("name"@, name_jv(n@)), None => Map::empty() };
    let m2 = match p.emails { Some(es) => m1.insert("emails"@, Jv::Obj(email_map_spec(es@))), None => m1 };
    let m3 = match p.phones { Some(ps) => m2.insert("phones"@, Jv::Obj(phone_map_spec(ps@))), None => m2 };
    let m4 = match p.company {
        Some(c) => m3.insert("organizations"@, if c@.len() == 0 { Jv::Null } else { org_map(c@) }),
        None => m3,
    };
    match p.notes {
        Some(n) => m4.insert("notes"@, if n@.len() == 0 { Jv::Null } else { Jv::Str(n@) }),
        None => m4,
    }
}

/// Each field of a contact goes to its own place in the JSContact card, and only when it
/// is given: the full name under `name`, the addresses under `emails`, the numbers under
/// `phones`, the company as the name of the organization under `organizations`, the
/// notes under `notes`, and the address book under `addressBookIds`.
pub proof fn law_new_card_fields(c: CreateContact)
    ensures
        ({
            let m = new_card(c)->Obj_0;
            &&& m.contains_key("name"@) && m["name"@]->Obj_0["full"@] == Jv::Str(c.name@)
            &&& m.contains_key("emails"@) == (c.emails@.len() > 0)
            &&& m.contains_key("phones"@) == (c.phones@.len() > 0)
            &&& m.contains_key("organizations"@) == (c.company@.len() > 0)
            &&& m.contains_key("notes"@) == (c.notes@.len() > 0)
            &&& m.contains_key("addressBookIds"@) == (c.address_book_id@.len() > 0)
            &&& c.company@.len() > 0 ==> m["organizations"@]->Obj_0["o0"@]->Obj_0["name"@] == Jv::Str(c.company@)
            &&& c.notes@.len() > 0 ==> m["notes"@] == Jv::Str(c.notes@)
            &&& c.address_book_id@.len() > 0 ==> m["addressBookIds"@] == Jv::Obj(map![c.address_book_id@ => Jv::Bool(true)])
        }),
{
    lemma_card_keys();
}

/// An update patch changes exactly the fields it is given, each in its own place: the
/// full name under `name`, addresses under `emails`, numbers under `phones`, the company
/// under `organizations` and the notes under `notes`; an empty company or empty notes
/// clear the field (null).
pub proof fn law_patch_fields(p: ContactPatch)
    ensures
        patch_spec(p).contains_key("name"@) == (p.name is Some),
        patch_spec(p).contains_key("emails"@) == (p.emails is Some),
        patch_spec(p).contains_key("phones"@) == (p.phones is Some),
        patch_spec(p).contains_key("organizations"@) == (p.company is Some),
        patch_spec(p).contains_key("notes"@) == (p.notes is Some),
        p.name matches Some(n) ==> patch_spec(p)["name"@]->Obj_0["full"@] == Jv::Str(n@),
        p.company matches Some(x) ==> (if x@.len() == 0 { patch_spec(p)["organizations"@] == Jv::Null }
            else { patch_spec(p)["organizations"@]->Obj_0["o0"@]->Obj_0["name"@] == Jv::Str(x@) }),
        p.notes matches Some(n) ==> patch_spec(p)["notes"@] == (if n@.len() == 0 { Jv::Null } else { Jv::Str(n@) }),
{
    lemma_card_keys();
}

/// The keys of a card differ from one another.
proof fn lemma_card_keys()
    ensures
        "name"@ != "emails"@, "name"@ != "phones"@, "name"@ != "organizations"@, "name"@ != "notes"@,
        "name"@ != "addressBookIds"@, "emails"@ != "phones"@, "emails"@ != "organizations"@,
        "emails"@ != "notes"@, "emails"@ != "addressBookIds"@, "phones"@ != "organizations"@,
        "phones"@ != "notes"@, "phones"@ != "addressBookIds"@, "organizations"@ != "notes"@,
        "organizations"@ != "addressBookIds"@, "notes"@ != "addressBookIds"@,
        "@type"@ != "name"@, "version"@ != "name"@, "@type"@ != "full"@, "@type"@ != "emails"@,
        "@type"@ != "phones"@, "@type"@ != "organizations"@, "@type"@ != "notes"@, "@type"@ != "addressBookIds"@,
        "version"@ != "emails"@, "version"@ != "phones"@, "version"@ != "organizations"@,
        "version"@ != "notes"@, "version"@ != "addressBookIds"@,
{
    reveal_strlit("name");
    reveal_strlit("emails");
    reveal_strlit("phones");
    reveal_strlit("organizations");
    reveal_strlit("notes");
    reveal_strlit("addressBookIds");
    reveal_strlit("@type");
    reveal_strlit("version");
    reveal_strlit("full");
    assert("emails"@[0] != "phones"@[0] && "@type"@[0] != "notes"@[0]);
    assert("name"@.len() != "emails"@.len() && "name"@.len() != "organizations"@.len() && "name"@.len() != "notes"@.len());
    assert("name"@.len() != "addressBookIds"@.len() && "emails"@.len() != "organizations"@.len() && "emails"@.len() != "notes"@.len());
    assert("emails"@.len() != "addressBookIds"@.len() && "organizations"@.len() != "notes"@.len());
    assert("organizations"@.len() != "addressBookIds"@.len() && "notes"@.len() != "addressBookIds"@.len());
    assert("@type"@.len() != "name"@.len() && "version"@.len() != "name"@.len() && "@type"@.len() != "full"@.len());
    assert("@type"@.len() != "emails"@.len() && "@type"@.len() != "organizations"@.len() && "@type"@.len() != "addressBookIds"@.len());
    assert("version"@.len() != "emails"@.len() && "version"@.len() != "organizations"@.len());
    assert("version"@.len() != "notes"@.len() && "version"@.len() != "addressBookIds"@.len());
}

impl ContactPatch {
    /// Whether the patch changes anything.
    pub open spec fn has_updates(self) -> bool {
        self.name is Some || self.emails is Some || self.phones is Some || self.company is Some || self.notes is Some
    }

    /// The JSContact patch (see `patch_spec`).
    pub fn to_wire(&self) -> (r: JsonObject)
        ensures
            r@ == patch_spec(*self),
    {
        proof { JsonValue::Null.lemma_view(); }
        let mut o = JsonObject::new();
        if let Some(n) = &self.name {
            o.insert(text::own("name"), name_of(n.as_str()));
        }
        if let Some(es) = &self.emails {
            o.insert(text::own("emails"), email_map(es.as_slice()));
        }
        if let Some(ps) = &self.phones {
            o.insert(text::own("phones"), phone_map(ps.as_slice()));
        }
        if let Some(c) = &self.company {
            let v = if c.as_str().is_empty() { JsonValue::Null } else { org_map_of(c.as_str()) };
            o.insert(text::own("organizations"), v);
        }
        if let Some(n) = &self.notes {
            let v = if n.as_str().is_empty() { JsonValue::Null } else { JsonValue::string(n.as_str()) };
            o.insert(text::own("notes"), v);
        }
        o
    }
}

/// A change to a contact.
pub struct UpdateContact {
    pub contact_id: String,
    pub patch: ContactPatch,
}

/// What a `ContactCard/set` result yields for an update or delete: its failure, else
/// `{"success": true}`.
pub fn contact_set_ok(data: &JsonValue) -> (r: Result<JsonValue, Error>)
    ensures
        match set_failure(data@) {
            Some(msg) => r matches Err(Error::Jmap { method, message }) && method@ == "ContactCard/set"@ && message@ == msg,
            None => r matches Ok(v) && v@ == Jv::Obj(map!["success"@ => Jv::Bool(true)]),
        },
{
    check_set_errors(data, "ContactCard/set")?;
    Ok(crate::present::set_ok())
}

impl UpdateContact {
    /// What running this action does, the exchanges it makes taking the log from
    /// `before` to `after` (see `run`).
    pub open spec fn outcome(self, ctx: Context, before: Seq<Exchanged>, after: Seq<Exchanged>, r: Result<JsonValue, Error>) -> bool {
        &&& (self.contact_id@.len() == 0 ==> (r matches Err(Error::InvalidParams(m)) && m@ == "contactId is required"@
            && after == before))
        &&& (self.contact_id@.len() > 0 && !self.patch.has_updates()
            ==> (r matches Err(Error::InvalidParams(m)) && m@ == "at least one field to update is required"@
                && after == before))
        &&& (self.contact_id@.len() > 0 && self.patch.has_updates() ==> card_set(ctx.jmap, before, after,
            Jv::Obj(map![
                "accountId"@ => Jv::Str(ctx.account_id@),
                "update"@ => Jv::Obj(map![self.contact_id@ => Jv::Obj(patch_spec(self.patch))])
            ]), false, r))
    }
}

impl Action for UpdateContact {
    fn run<T: HttpTransport>(&self, ctx: &Context, t: &mut Exchange<T>) -> (r: Result<JsonValue, Error>)
        ensures
            self.outcome(*ctx, old(t).log(), final(t).log(), r),
    {
        if self.contact_id.as_str().is_empty() {
            return Err(Error::invalid("contactId is required"));
        }
        let p = &self.patch;
        if !(p.name.is_some() || p.emails.is_some() || p.phones.is_some() || p.company.is_some() || p.notes.is_some()) {
            return Err(Error::invalid("at least one field to update is required"));
        }
        let patch = JsonValue::object(p.to_wire());
        let update = JsonValue::object(JsonObject::new().with(self.contact_id.as_str(), patch));
        assert(update@->Obj_0 =~= map![self.contact_id@ => Jv::Obj(patch_spec(self.patch))]);
        let args = JsonValue::object(JsonObject::new()
            .with("accountId", JsonValue::string(ctx.account_id.as_str()))
            .with("update", update));
        assert(args@->Obj_0 =~= map!["accountId"@ => Jv::Str(ctx.account_id@), "update"@ => update@]);
        match ctx.jmap.call_one(t, "urn:ietf:params:jmap:contacts", "ContactCard/set", args) {
            Ok(data) => contact_set_ok(&data),
            Err(e) => Err(e),
        }
    }
}

/// A contact to delete.
pub struct DeleteContact {
    pub contact_id: String,
}

impl DeleteContact {
    /// What running this action does, the exchanges it makes taking the log from
    /// `before` to `after` (see `run`).
    pub open spec fn outcome(self, ctx: Context, before: Seq<Exchanged>, after: Seq<Exchanged>, r: Result<JsonValue, Error>) -> bool {
        &&& (self.contact_id@.len() == 0 ==> (r matches Err(Error::InvalidParams(m)) && m@ == "contactId is required"@
            && after == before))
        &&& (self.contact_id@.len() > 0 ==> card_set(ctx.jmap, before, after, Jv::Obj(map![
            "accountId"@ => Jv::Str(ctx.account_id@),
            "destroy"@ => Jv::Arr(seq![Jv::Str(self.contact_id@)])
            ]), false, r))
    }
}

impl Action for DeleteContact {
    fn run<T: HttpTransport>(&self, ctx: &Context, t: &mut Exchange<T>) -> (r: Result<JsonValue, Error>)
        ensures
            self.outcome(*ctx, old(t).log(), final(t).log(), r),
    {
        if self.contact_id.as_str().is_empty() {
            return Err(Error::invalid("contactId is required"));
        }
        let args = JsonValue::object(JsonObject::new()
            .with("accountId", JsonValue::string(ctx.account_id.as_str()))
            .with("destroy", JsonValue::single(JsonValue::string(self.contact_id.as_str()))));
        assert(args@->Obj_0 =~= map!["accountId"@ => Jv::Str(ctx.account_id@), "destroy"@ => Jv::Arr(seq![Jv::Str(self.contact_id@)])]);
        match ctx.jmap.call_one(t, "urn:ietf:params:jmap:contacts", "ContactCard/set", args) {
            Ok(data) => contact_set_ok(&data),
            Err(e) => Err(e),
        }
    }
}

} // verus!
