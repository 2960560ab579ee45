//! JMAP: the envelope, the client, and the typed accessors for each data type.

pub mod client;
pub mod email;
pub mod identity;
pub mod mailbox;
pub mod masked_email;
pub mod types;
pub mod vacation;

use vstd::prelude::*;

use crate::error::Error;
use crate::json::{
    first_key, member, obj_member, opt_str_member, read_opt_str, read_str, read_str_list, str_list_member,
    str_member, texts, views, JsonObject, JsonValue, Jv,
};
use crate::text;

verus! {

/// The message a `SetError` map reports: the `description` of its first entry (in key
/// order), or the map's own name when that entry has none.
pub open spec fn set_error_message(m: Map<Seq<char>, Jv>, name: Seq<char>) -> Seq<char> {
    match member(m[first_key(m)], "description"@) {
        Some(Jv::Str(d)) => d,
        _ => name,
    }
}

/// The first partial failure of a `/set` response, scanning `notCreated`, `notUpdated`,
/// `notDestroyed` in that order.
pub open spec fn first_set_error(
    not_created: Map<Seq<char>, Jv>,
    not_updated: Map<Seq<char>, Jv>,
    not_destroyed: Map<Seq<char>, Jv>,
) -> Option<Seq<char>> {
    if not_created.dom().len() > 0 {
        Some(set_error_message(not_created, "notCreated"@))
    } else if not_updated.dom().len() > 0 {
        Some(set_error_message(not_updated, "notUpdated"@))
    } else if not_destroyed.dom().len() > 0 {
        Some(set_error_message(not_destroyed, "notDestroyed"@))
    } else {
        None
    }
}

/// The message of the first entry of a non-empty `SetError` map named `name`.
pub fn set_error_text(m: &JsonObject, name: &str) -> (r: Option<String>)
    ensures
        match r {
            Some(t) => m@.dom().len() > 0 && t@ == set_error_message(m@, name@),
            None => m@.dom().len() == 0,
        },
{
    match m.first() {
        None => None,
        Some((_, err)) => {
            let t = match err.get("description") {
                Some(d) => match d.as_str() {
                    Some(s) => text::own(s),
                    None => text::own(name),
                },
                None => text::own(name),
            };
            Some(t)
        },
    }
}

/// Surface the first partial-failure `SetError` of a typed `*/set` response, scanning
/// `notCreated`, `notUpdated`, `notDestroyed` (the order JMAP documents), as a JMAP error
/// of `method`. `Ok(())` when the whole batch succeeded.
pub fn check_set_errors(
    method: &str,
    not_created: &JsonObject,
    not_updated: &JsonObject,
    not_destroyed: &JsonObject,
) -> (r: Result<(), Error>)
    ensures
        match first_set_error(not_created@, not_updated@, not_destroyed@) {
            Some(msg) => r matches Err(Error::Jmap { method: m, message: g }) && m@ == method@ && g@ == msg,
            None => r is Ok,
        },
{
    if let Some(t) = set_error_text(not_created, "notCreated") {
        return Err(Error::Jmap { method: text::own(method), message: t });
    }
    if let Some(t) = set_error_text(not_updated, "notUpdated") {
        return Err(Error::Jmap { method: text::own(method), message: t });
    }
    if let Some(t) = set_error_text(not_destroyed, "notDestroyed") {
        return Err(Error::Jmap { method: text::own(method), message: t });
    }
    Ok(())
}

/// Whether a value is an object with a string `id`.
pub open spec fn has_id(j: Jv) -> bool {
    j is Obj && member(j, "id"@) matches Some(Jv::Str(_))
}

/// The `list` member of a `/get` result (absent reads as empty).
pub open spec fn get_list(m: Map<Seq<char>, Jv>) -> Seq<Jv> {
    if m.contains_key("list"@) { m["list"@]->Arr_0 } else { Seq::empty() }
}

/// Whether a `/get` result is well formed: an object whose `list` is an array of objects
/// with string ids, whose `notFound` is a list of strings and whose `state` is a string,
/// each defaulting when absent.
pub open spec fn get_ok(j: Jv) -> bool {
    j matches Jv::Obj(m)
        && (!m.contains_key("list"@) || (m["list"@] matches Jv::Arr(a) && forall|i: int| 0 <= i < a.len() ==> has_id(#[trigger] a[i])))
        && str_list_member(m, "notFound"@) is Some
        && str_member(m, "state"@) is Some
}

/// A `/get` response: the objects found, every property kept; the ids not found; the
/// state token.
#[derive(Debug)]
pub struct GetResponse {
    pub list: Vec<JsonValue>,
    pub not_found: Vec<String>,
    pub state: String,
}

impl GetResponse {
    /// Read a `/get` result; one of the wrong shape is a JSON error.
    pub fn from_json(j: &JsonValue) -> (r: Result<GetResponse, Error>)
        ensures
            match r {
                Ok(g) => get_ok(j@) && views(g.list@) == get_list(j@->Obj_0)
                    && str_list_member(j@->Obj_0, "notFound"@) == Some(texts(g.not_found@))
                    && str_member(j@->Obj_0, "state"@) == Some(g.state@),
                Err(e) => !get_ok(j@) && e is Json,
            },
    {
        proof { j.lemma_view(); }
        let bad = Error::Json(text::own("malformed /get response"));
        let o = match j.as_object() {
            Some(o) => o,
            None => return Err(bad),
        };
        let mut list: Vec<JsonValue> = Vec::new();
        match o.get("list") {
            None => {},
            Some(lv) => {
                let a = match lv.as_array() {
                    Some(a) => a,
                    None => return Err(bad),
                };
                let ghost av = lv@->Arr_0;
                let mut i: usize = 0;
                while i < a.len()
                    invariant
                        i <= a.len(),
                        bad is Json,
                        j@ == Jv::Obj(o@),
                        o@.contains_key("list"@) && o@["list"@] == lv@,
                        lv@ == Jv::Arr(av),
                        av.len() == a@.len(),
                        forall|k: int| 0 <= k < a@.len() ==> (#[trigger] a@[k])@ == av[k],
                        list@.len() == i,
                        forall|k: int| 0 <= k < i ==> (#[trigger] list@[k])@ == av[k] && has_id(av[k]),
                    decreases a.len() - i,
                {
                    let e = &a[i];
                    let ok = match e.get("id") {
                        Some(id) => id.as_str().is_some(),
                        None => false,
                    };
                    let is_obj = e.as_object().is_some();
                    proof {
                        e.lemma_view();
                        assert(has_id(e@) <==> (ok && is_obj));
                        assert(a@[i as int]@ == av[i as int]);
                        assert(e@ == av[i as int]);
                    }
                    if !ok || !is_obj {
                        assert(!has_id(av[i as int]));
                        assert(!(forall|k: int| 0 <= k < av.len() ==> has_id(#[trigger] av[k])));
                        assert(o@["list"@]->Arr_0 == av);
                        assert(!get_ok(j@));
                        return Err(bad);
                    }
                    assert(has_id(av[i as int]));
                    let c = e.deep_clone();
                    assert(c@ == av[i as int]);
                    list.push(c);
                    assert(list@[i as int]@ == av[i as int]);
                    i = i + 1;
                }
                assert(views(list@) =~= av);
            },
        }
        let not_found = match read_str_list(o, "notFound") {
            Some(v) => v,
            None => return Err(bad),
        };
        let state = match read_str(o, "state") {
            Some(s) => s,
            None => return Err(bad),
        };
        proof {
            if !o@.contains_key("list"@) {
                assert(views(list@) =~= Seq::<Jv>::empty());
            }
        }
        Ok(GetResponse { list, not_found, state })
    }
}

/// Whether a `/set` result is well formed: an object whose state tokens are strings or
/// null, whose `created`, `updated` and failure members are objects and whose
/// `destroyed` is a list of strings, each defaulting when absent.
pub open spec fn set_ok(j: Jv) -> bool {
    j matches Jv::Obj(m)
        && opt_str_member(m, "oldState"@) is Some
        && opt_str_member(m, "newState"@) is Some
        && obj_member(m, "created"@) is Some
        && obj_member(m, "updated"@) is Some
        && str_list_member(m, "destroyed"@) is Some
        && obj_member(m, "notCreated"@) is Some
        && obj_member(m, "notUpdated"@) is Some
        && obj_member(m, "notDestroyed"@) is Some
}

/// A `/set` response, every member kept.
#[derive(Debug)]
pub struct SetResponse {
    pub old_state: Option<String>,
    pub new_state: Option<String>,
    pub created: JsonObject,
    pub updated: JsonObject,
    pub destroyed: Vec<String>,
    pub not_created: JsonObject,
    pub not_updated: JsonObject,
    pub not_destroyed: JsonObject,
}

/// The text of an optional string.
pub open spec fn opt_text(o: Option<String>) -> Option<Seq<char>> {
    match o {
        Some(s) => Some(s@),
        None => None,
    }
}

/// The JSON form of an optional string: the string, or null.
pub open spec fn opt_str_jv(o: Option<String>) -> Jv {
    match o {
        Some(s) => Jv::Str(s@),
        None => Jv::Null,
    }
}

/// The JSON form of an optional string: the string, or null.
pub fn opt_str_value(o: &Option<String>) -> (r: JsonValue)
    ensures
        r@ == opt_str_jv(*o),
{
    proof { JsonValue::Null.lemma_view(); }
    match o {
        Some(s) => JsonValue::string(s.as_str()),
        None => JsonValue::Null,
    }
}

/// Read an object member (absent reads as empty).
fn read_obj(o: &JsonObject, k: &str) -> (r: Option<JsonObject>)
    ensures
        match r {
            Some(x) => obj_member(o@, k@) == Some(x@),
            None => obj_member(o@, k@) is None,
        },
{
    match o.get(k) {
        None => Some(JsonObject::new()),
        Some(v) => match v.as_object() {
            Some(x) => Some(x.deep_clone()),
            None => None,
        },
    }
}

/// Whether `s` holds the members of the `/set` result `j` (absent ones defaulting).
pub open spec fn set_read_from(s: SetResponse, j: Jv) -> bool {
    set_ok(j)
        && opt_str_member(j->Obj_0, "oldState"@) == Some(opt_text(s.old_state))
        && opt_str_member(j->Obj_0, "newState"@) == Some(opt_text(s.new_state))
        && obj_member(j->Obj_0, "created"@) == Some(s.created@)
        && obj_member(j->Obj_0, "updated"@) == Some(s.updated@)
        && str_list_member(j->Obj_0, "destroyed"@) == Some(texts(s.destroyed@))
        && obj_member(j->Obj_0, "notCreated"@) == Some(s.not_created@)
        && obj_member(j->Obj_0, "notUpdated"@) == Some(s.not_updated@)
        && obj_member(j->Obj_0, "notDestroyed"@) == Some(s.not_destroyed@)
}

/// The JSON members of a `/set` response: every member, absent state tokens as null.
pub open spec fn set_json(s: SetResponse) -> Map<Seq<char>, Jv> {
    map![
        "oldState"@ => opt_str_jv(s.old_state),
        "newState"@ => opt_str_jv(s.new_state),
        "created"@ => Jv::Obj(s.created@),
        "updated"@ => Jv::Obj(s.updated@),
        "destroyed"@ => Jv::Arr(texts(s.destroyed@).map_values(|t: Seq<char>| Jv::Str(t))),
        "notCreated"@ => Jv::Obj(s.not_created@),
        "notUpdated"@ => Jv::Obj(s.not_updated@),
        "notDestroyed"@ => Jv::Obj(s.not_destroyed@)
    ]
}

/// The names of the members of a `/set` response.
pub open spec fn set_member_names() -> Seq<Seq<char>> {
    seq!["oldState"@, "newState"@, "created"@, "updated"@, "destroyed"@, "notCreated"@, "notUpdated"@, "notDestroyed"@]
}

/// The member names of a `/set` response are distinct.
proof fn lemma_set_member_names()
    ensures
        set_member_names().no_duplicates(),
{
    reveal_strlit("oldState");
    reveal_strlit("newState");
    reveal_strlit("created");
    reveal_strlit("updated");
    reveal_strlit("destroyed");
    reveal_strlit("notCreated");
    reveal_strlit("notUpdated");
    reveal_strlit("notDestroyed");
    let n = set_member_names();
    assert forall|i: int, j: int| 0 <= i < n.len() && 0 <= j < n.len() && i != j implies n[i] != n[j] by {
        assert(n[i].len() != n[j].len() || n[i][0] != n[j][0] || n[i][3] != n[j][3]);
    }
}

/// A `/set` result is passed on faithfully: reading a well-formed result into a
/// `SetResponse` and writing it back gives each response member the result holds the
/// value it held, and the written response holds exactly the response members.
pub proof fn law_set_round_trip(s: SetResponse, j: Jv)
    requires
        set_read_from(s, j),
    ensures
        set_json(s).dom() == set_member_names().to_set(),
        forall|k: Seq<char>| #[trigger] j->Obj_0.contains_key(k) && set_member_names().contains(k)
            ==> set_json(s)[k] == j->Obj_0[k],
{
    lemma_set_member_names();
    reveal_strlit("oldState");
    reveal_strlit("newState");
    reveal_strlit("created");
    reveal_strlit("updated");
    reveal_strlit("destroyed");
    reveal_strlit("notCreated");
    reveal_strlit("notUpdated");
    reveal_strlit("notDestroyed");
    let n = set_member_names();
    assert(set_json(s).dom() =~= n.to_set()) by {
        assert forall|k: Seq<char>| n.to_set().contains(k) implies set_json(s).dom().contains(k) by {
            let i = choose|i: int| 0 <= i < n.len() && n[i] == k;
        }
    }
    let m = j->Obj_0;
    assert forall|k: Seq<char>| #[trigger] m.contains_key(k) && n.contains(k) implies set_json(s)[k] == m[k] by {
        let i = choose|i: int| 0 <= i < n.len() && n[i] == k;
        assert(n[0] != n[1] && n[0] != n[2] && n[2] != n[3] && n[4] != n[5]);
        if k == "destroyed"@ {
            let a = m[k]->Arr_0;
            assert(a =~= texts(s.destroyed@).map_values(|t: Seq<char>| Jv::Str(t)));
        }
    }
}

impl SetResponse {
    /// Read a `/set` result; one of the wrong shape is a JSON error.
    pub fn from_json(j: &JsonValue) -> (r: Result<SetResponse, Error>)
        ensures
            match r {
                Ok(s) => set_read_from(s, j@),
                Err(e) => !set_ok(j@) && e is Json,
            },
    {
        proof { j.lemma_view(); }
        let bad = Error::Json(text::own("malformed /set response"));
        let o = match j.as_object() { Some(o) => o, None => return Err(bad) };
        let old_state = match read_opt_str(o, "oldState") { Some(x) => x, None => return Err(bad) };
        let new_state = match read_opt_str(o, "newState") { Some(x) => x, None => return Err(bad) };
        let created = match read_obj(o, "created") { Some(x) => x, None => return Err(bad) };
        let updated = match read_obj(o, "updated") { Some(x) => x, None => return Err(bad) };
        let destroyed = match read_str_list(o, "destroyed") { Some(x) => x, None => return Err(bad) };
        let not_created = match read_obj(o, "notCreated") { Some(x) => x, None => return Err(bad) };
        let not_updated = match read_obj(o, "notUpdated") { Some(x) => x, None => return Err(bad) };
        let not_destroyed = match read_obj(o, "notDestroyed") { Some(x) => x, None => return Err(bad) };
        Ok(SetResponse { old_state, new_state, created, updated, destroyed, not_created, not_updated, not_destroyed })
    }

    /// The JSON form of the response: every member, absent state tokens as null.
    pub fn to_json(&self) -> (r: JsonValue)
        ensures
            r@ == Jv::Obj(set_json(*self)),
    {
        let o = JsonObject::new()
            .with("oldState", opt_str_value(&self.old_state))
            .with("newState", opt_str_value(&self.new_state))
            .with("created", JsonValue::object(self.created.deep_clone()))
            .with("updated", JsonValue::object(self.updated.deep_clone()))
            .with("destroyed", crate::json::string_array(&self.destroyed))
            .with("notCreated", JsonValue::object(self.not_created.deep_clone()))
            .with("notUpdated", JsonValue::object(self.not_updated.deep_clone()))
            .with("notDestroyed", JsonValue::object(self.not_destroyed.deep_clone()));
        let r = JsonValue::object(o);
        assert(r@->Obj_0 =~= set_json(*self));
        r
    }

    /// Surface the first partial-failure `SetError` (see `check_set_errors`).
    pub fn check_errors(&self, method: &str) -> (r: Result<(), Error>)
        ensures
            match first_set_error(self.not_created@, self.not_updated@, self.not_destroyed@) {
                Some(msg) => r matches Err(Error::Jmap { method: m, message: g }) && m@ == method@ && g@ == msg,
                None => r is Ok,
            },
    {
        check_set_errors(method, &self.not_created, &self.not_updated, &self.not_destroyed)
    }
}

/// The arguments of a `/set` call: the account, and `create`, `update` and `destroy`
/// when given (an empty destroy list is left out).
pub open spec fn set_args(account_id: Seq<char>, create: Option<Jv>, update: Option<Jv>, destroy: Seq<Seq<char>>) -> Jv {
    let m0 = map!["accountId"@ => Jv::Str(account_id)];
    let m1 = match create { Some(c) => m0.insert("create"@, c), None => m0 };
    let m2 = match update { Some(u) => m1.insert("update"@, u), None => m1 };
    Jv::Obj(if destroy.len() > 0 { m2.insert("destroy"@, Jv::Arr(destroy.map_values(|s: Seq<char>| Jv::Str(s)))) } else { m2 })
}

/// The view of an optional value.
pub open spec fn opt_jv(o: Option<JsonValue>) -> Option<Jv> {
    match o {
        Some(v) => Some(v@),
        None => None,
    }
}

/// The arguments of a `/set` call (see `set_args`).
pub fn set_args_of(account_id: &str, create: Option<JsonValue>, update: Option<JsonValue>, destroy: &Vec<String>) -> (r: JsonValue)
    ensures
        r@ == set_args(account_id@, opt_jv(create), opt_jv(update), texts(destroy@)),
{
    let ghost c = opt_jv(create);
    let ghost u = opt_jv(update);
    let mut o = JsonObject::new().with("accountId", JsonValue::string(account_id));
    if let Some(x) = create {
        o.insert(text::own("create"), x);
    }
    if let Some(x) = update {
        o.insert(text::own("update"), x);
    }
    if destroy.len() > 0 {
        o.insert(text::own("destroy"), crate::json::string_array(destroy));
    }
    let r = JsonValue::object(o);
    assert(r@->Obj_0 =~= set_args(account_id@, c, u, texts(destroy@))->Obj_0);
    r
}

/// Arguments that name only the account.
pub fn account_args(account_id: &str) -> (r: JsonValue)
    ensures
        r@ == Jv::Obj(map!["accountId"@ => Jv::Str(account_id@)]),
{
    let r = JsonValue::object(JsonObject::new().with("accountId", JsonValue::string(account_id)));
    assert(r@->Obj_0 =~= map!["accountId"@ => Jv::Str(account_id@)]);
    r
}

/// What reading a `/get` result `j` gives: the response, or a JSON error for a result of
/// the wrong shape (see `GetResponse::from_json`).
pub open spec fn get_outcome(j: Jv, r: Result<GetResponse, Error>) -> bool {
    match r {
        Ok(g) => get_ok(j) && views(g.list@) == get_list(j->Obj_0)
            && str_list_member(j->Obj_0, "notFound"@) == Some(texts(g.not_found@))
            && str_member(j->Obj_0, "state"@) == Some(g.state@),
        Err(e) => !get_ok(j) && e is Json,
    }
}

/// What reading a `/set` result `j` gives: the response, or a JSON error for a result of
/// the wrong shape (see `SetResponse::from_json`).
pub open spec fn set_outcome(j: Jv, r: Result<SetResponse, Error>) -> bool {
    match r {
        Ok(s) => set_read_from(s, j),
        Err(e) => !set_ok(j) && e is Json,
    }
}

/// What passing on a `/set` result `j` gives: a JSON error for one of the wrong shape;
/// else its first partial failure as an error of `method`; else its members.
pub open spec fn set_passed(method: Seq<char>, j: Jv, r: Result<JsonValue, Error>) -> bool {
    if !set_ok(j) {
        r matches Err(e) && e is Json
    } else {
        match first_set_error(
            obj_member(j->Obj_0, "notCreated"@)->0,
            obj_member(j->Obj_0, "notUpdated"@)->0,
            obj_member(j->Obj_0, "notDestroyed"@)->0,
        ) {
            Some(msg) => r matches Err(Error::Jmap { method: m, message: g }) && m@ == method && g@ == msg,
            None => r matches Ok(v) && exists|s: SetResponse| #[trigger] set_read_from(s, j) && v@ == Jv::Obj(set_json(s)),
        }
    }
}

/// What passing on the list of a `/get` result `j` gives: its objects, or a JSON error for
/// a result of the wrong shape.
pub open spec fn list_passed(j: Jv, r: Result<JsonValue, Error>) -> bool {
    if get_ok(j) {
        r matches Ok(v) && v@ == Jv::Arr(get_list(j->Obj_0))
    } else {
        r matches Err(e) && e is Json
    }
}

/// What passing on the first object of a `/get` result `j` gives: that object (an empty
/// object when there is none), or a JSON error for a result of the wrong shape.
pub open spec fn first_passed(j: Jv, r: Result<JsonValue, Error>) -> bool {
    if get_ok(j) {
        r matches Ok(v) && v@ == (if get_list(j->Obj_0).len() > 0 { get_list(j->Obj_0)[0] } else { Jv::Obj(Map::empty()) })
    } else {
        r matches Err(e) && e is Json
    }
}

} // verus!
