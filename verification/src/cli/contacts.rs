//! How the command line reads contact entries and shows contacts.

use vstd::prelude::*;

use crate::actions::str_member_of;
use crate::cli::emails::{padded, pad};
use crate::json::{member, JsonObject, JsonValue, Jv};
use crate::text;

verus! {

/// The position of the first `:` in `s`, if any.
pub open spec fn first_colon(s: Seq<char>) -> Option<int> {
    if exists|i: int| 0 <= i < s.len() && s[i] == ':' {
        Some(choose|i: int| 0 <= i < s.len() && s[i] == ':' && forall|j: int| 0 <= j < i ==> s[j] != ':')
    } else {
        None
    }
}

/// The context and value of a `type:value` entry: a `work` or `private` prefix before the
/// first `:` names the context; anything else is the whole value, context `other`.
pub open spec fn typed_value(s: Seq<char>) -> (Seq<char>, Seq<char>) {
    match first_colon(s) {
        Some(i) => if s.take(i) == "work"@ || s.take(i) == "private"@ {
            (s.take(i), s.skip(i + 1))
        } else {
            ("other"@, s)
        },
        None => ("other"@, s),
    }
}

/// The entry object of a `type:value` string: `{"type": context, value_key: value}`.
pub open spec fn typed_entry(s: Seq<char>, value_key: Seq<char>) -> Jv {
    Jv::Obj(map!["type"@ => Jv::Str(typed_value(s).0), value_key => Jv::Str(typed_value(s).1)])
}

/// Split a `type:value` string (see `typed_value`).
pub fn split_typed(s: &str) -> (r: (String, String))
    ensures
        (r.0@, r.1@) == typed_value(s@),
{
    let cs = text::chars_of(s);
    let mut i: usize = 0;
    while i < cs.len() && cs[i] != ':'
        invariant
            i <= cs@.len(),
            cs@ == s@,
            forall|j: int| 0 <= j < i ==> cs@[j] != ':',
        decreases cs.len() - i,
    {
        i = i + 1;
    }
    if i == cs.len() {
        proof {
            assert(!(exists|k: int| 0 <= k < s@.len() && s@[k] == ':'));
        }
        return (text::own("other"), text::own(s));
    }
    proof {
        assert(cs@[i as int] == ':');
        let f = first_colon(s@);
        assert(exists|k: int| 0 <= k < s@.len() && s@[k] == ':');
        let c = choose|k: int| 0 <= k < s@.len() && s@[k] == ':' && forall|j: int| 0 <= j < k ==> s@[j] != ':';
        assert(s@[i as int] == ':' && forall|j: int| 0 <= j < i ==> s@[j] != ':');
        assert(c == i as int) by {
            if c < i as int {
                assert(s@[c] != ':');
            } else if c > i as int {
                assert(s@[i as int] != ':');
            }
        }
    }
    let mut head: Vec<char> = Vec::new();
    let mut j: usize = 0;
    while j < i
        invariant
            j <= i,
            i < cs@.len(),
            head@ == cs@.take(j as int),
        decreases i - j,
    {
        head.push(cs[j]);
        j = j + 1;
        assert(head@ =~= cs@.take(j as int));
    }
    let mut tail: Vec<char> = Vec::new();
    let mut k: usize = i + 1;
    while k < cs.len()
        invariant
            i + 1 <= k <= cs@.len(),
            tail@ == cs@.subrange(i as int + 1, k as int),
        decreases cs.len() - k,
    {
        tail.push(cs[k]);
        k = k + 1;
        assert(tail@ =~= cs@.subrange(i as int + 1, k as int));
    }
    assert(cs@.subrange(i as int + 1, cs@.len() as int) =~= cs@.skip(i as int + 1));
    let t = text::string_of(&head);
    if text::str_eq(t.as_str(), "work") || text::str_eq(t.as_str(), "private") {
        (t, text::string_of(&tail))
    } else {
        (text::own("other"), text::own(s))
    }
}

/// Read `type:value` strings into entry objects (see `typed_entry`).
pub fn parse_typed_values(inputs: &[String], value_key: &str) -> (r: Vec<JsonValue>)
    ensures
        r@.len() == inputs@.len(),
        forall|i: int| 0 <= i < r@.len() ==> (#[trigger] r@[i])@ == typed_entry(inputs@[i]@, value_key@),
{
    let mut out: Vec<JsonValue> = Vec::new();
    let mut i: usize = 0;
    while i < inputs.len()
        invariant
            i <= inputs@.len(),
            out@.len() == i,
            forall|j: int| 0 <= j < i ==> (#[trigger] out@[j])@ == typed_entry(inputs@[j]@, value_key@),
        decreases inputs.len() - i,
    {
        let (t, v) = split_typed(inputs[i].as_str());
        let e = JsonValue::object(JsonObject::new().with("type", JsonValue::Str(t)).with(value_key, JsonValue::Str(v)));
        proof { JsonValue::Str(t).lemma_view(); JsonValue::Str(v).lemma_view(); }
        assert(e@->Obj_0 =~= typed_entry(inputs@[i as int]@, value_key@)->Obj_0);
        out.push(e);
        i = i + 1;
    }
    out
}

/// One row of the contact table: id, name, first email address and company.
pub open spec fn contact_row_text(c: Jv) -> Seq<char> {
    let id = match str_member_of(c, "id"@) { Some(s) => s, None => "?"@ };
    let name = match str_member_of(c, "name"@) { Some(s) => s, None => Seq::empty() };
    let email = match member(c, "emails"@) {
        Some(Jv::Arr(a)) => if a.len() > 0 {
            match str_member_of(a[0], "address"@) { Some(s) => s, None => Seq::empty() }
        } else {
            Seq::empty()
        },
        _ => Seq::empty(),
    };
    let company = match str_member_of(c, "company"@) { Some(s) => s, None => Seq::empty() };
    padded(id, 40) + " "@ + padded(name, 24) + " "@ + padded(email, 28) + " "@ + company
}

/// A string member, or `dflt`.
fn text_or(v: &JsonValue, k: &str, dflt: &str) -> (r: String)
    ensures
        r@ == match str_member_of(v@, k@) { Some(s) => s, None => dflt@ },
{
    match v.get(k) {
        Some(x) => match x.as_str() {
            Some(s) => text::own(s),
            None => text::own(dflt),
        },
        None => text::own(dflt),
    }
}

/// One row of the contact table (see `contact_row_text`).
pub fn contact_row(c: &JsonValue) -> (r: String)
    ensures
        r@ == contact_row_text(c@),
{
    let id = text_or(c, "id", "?");
    let name = text_or(c, "name", "");
    proof { reveal_strlit(""); }
    assert(""@ =~= Seq::<char>::empty());
    let email = match c.get("emails") {
        Some(e) => {
            proof { e.lemma_view(); }
            match e.as_array() {
                Some(a) => if a.len() > 0 { text_or(&a[0], "address", "") } else { String::new() },
                None => String::new(),
            }
        },
        None => String::new(),
    };
    let company = text_or(c, "company", "");
    let a = text::concat3(pad(id.as_str(), 40).as_str(), " ", pad(name.as_str(), 24).as_str());
    let b = text::concat3(a.as_str(), " ", pad(email.as_str(), 28).as_str());
    text::concat3(b.as_str(), " ", company.as_str())
}

/// One row of the address book table: id, name, whether it is the default, description.
pub open spec fn address_book_row_text(b: Jv) -> Seq<char> {
    let id = match str_member_of(b, "id"@) { Some(s) => s, None => "?"@ };
    let name = match str_member_of(b, "name"@) { Some(s) => s, None => Seq::empty() };
    let is_default = member(b, "isDefault"@) == Some(Jv::Bool(true));
    let desc = match str_member_of(b, "description"@) { Some(s) => s, None => Seq::empty() };
    padded(id, 40) + " "@ + padded(name, 24) + " "@ + padded(if is_default { "yes"@ } else { Seq::empty() }, 10) + " "@ + desc
}

/// One row of the address book table (see `address_book_row_text`).
pub fn address_book_row(b: &JsonValue) -> (r: String)
    ensures
        r@ == address_book_row_text(b@),
{
    let id = text_or(b, "id", "?");
    let name = text_or(b, "name", "");
    proof { reveal_strlit(""); }
    assert(""@ =~= Seq::<char>::empty());
    let is_default = match b.get("isDefault") {
        Some(x) => {
            proof { x.lemma_view(); }
            match x.as_bool() { Some(v) => v, None => false }
        },
        None => false,
    };
    let desc = text_or(b, "description", "");
    let flag = if is_default { "yes" } else { "" };
    let a = text::concat3(pad(id.as_str(), 40).as_str(), " ", pad(name.as_str(), 24).as_str());
    let c = text::concat3(a.as_str(), " ", pad(flag, 10).as_str());
    text::concat3(c.as_str(), " ", desc.as_str())
}

} // verus!
