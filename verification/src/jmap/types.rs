//! The JMAP envelope: requests, responses, the session resource, and back-references.

use vstd::prelude::*;

use crate::error::Error;
use crate::json::{
    obj_member, read_bool, read_str, str_member, string_array, texts, views, JsonObject, JsonValue,
    Jv,
};
use crate::text;

verus! {

/// One method call or response: (method name, arguments, call id).
pub type MethodCall = (String, JsonValue, String);

/// One method response: (method name, arguments, call id).
pub type MethodResponse = (String, JsonValue, String);

/// A JMAP request: the capabilities it uses and its method calls.
#[derive(Debug)]
pub struct JmapRequest {
    pub using: Vec<String>,
    pub method_calls: Vec<MethodCall>,
}

/// A JMAP response: the method responses in order and the session state.
#[derive(Debug)]
pub struct JmapResponse {
    pub method_responses: Vec<MethodResponse>,
    pub session_state: String,
}

/// A method call as a value: (name, argument view, call id).
pub open spec fn call_view(c: MethodCall) -> (Seq<char>, Jv, Seq<char>) {
    (c.0@, c.1@, c.2@)
}

/// The JSON form of a method call: `[name, arguments, call id]`.
pub open spec fn call_json(c: (Seq<char>, Jv, Seq<char>)) -> Jv {
    Jv::Arr(seq![Jv::Str(c.0), c.1, Jv::Str(c.2)])
}

/// The JSON form of a request: `{"using": [...], "methodCalls": [...]}`.
pub open spec fn request_json(using: Seq<Seq<char>>, calls: Seq<(Seq<char>, Jv, Seq<char>)>) -> Jv {
    Jv::Obj(map![
        "using"@ => Jv::Arr(using.map_values(|s: Seq<char>| Jv::Str(s))),
        "methodCalls"@ => Jv::Arr(calls.map_values(|c: (Seq<char>, Jv, Seq<char>)| call_json(c)))
    ])
}

/// The method call an element of `methodResponses` holds: a three-element array of a
/// string, any value and a string.
pub open spec fn decode_call(j: Jv) -> Option<(Seq<char>, Jv, Seq<char>)> {
    match j {
        Jv::Arr(a) => if a.len() == 3 && a[0] is Str && a[2] is Str {
            Some((a[0]->Str_0, a[1], a[2]->Str_0))
        } else {
            None
        },
        _ => None,
    }
}

/// Whether every element of `a` is a well-formed method response.
pub open spec fn all_calls(a: Seq<Jv>) -> bool {
    forall|i: int| 0 <= i < a.len() ==> (#[trigger] decode_call(a[i])) is Some
}

/// The method responses a response document holds, if it is well formed: an object
/// whose `methodResponses` (default empty) is an array of method responses and whose
/// `sessionState` (default empty) is a string.
pub open spec fn decode_response(j: Jv) -> Option<(Seq<(Seq<char>, Jv, Seq<char>)>, Seq<char>)> {
    match j {
        Jv::Obj(m) => {
            let calls_ok = !m.contains_key("methodResponses"@) || (m["methodResponses"@] matches Jv::Arr(a) && all_calls(a));
            let calls = if m.contains_key("methodResponses"@) {
                m["methodResponses"@]->Arr_0.map_values(|x: Jv| decode_call(x)->0)
            } else {
                Seq::empty()
            };
            if calls_ok && str_member(m, "sessionState"@) is Some {
                Some((calls, str_member(m, "sessionState"@)->0))
            } else {
                None
            }
        },
        _ => None,
    }
}

impl JmapRequest {
    /// The capability texts.
    pub open spec fn using_view(self) -> Seq<Seq<char>> {
        texts(self.using@)
    }

    /// The method calls as values.
    pub open spec fn calls_view(self) -> Seq<(Seq<char>, Jv, Seq<char>)> {
        self.method_calls@.map_values(|c: MethodCall| call_view(c))
    }

    /// The JSON document sent to the server.
    pub fn to_json(&self) -> (r: JsonValue)
        ensures
            r@ == request_json(self.using_view(), self.calls_view()),
    {
        let using = string_array(&self.using);
        let mut calls: Vec<JsonValue> = Vec::new();
        let mut i: usize = 0;
        while i < self.method_calls.len()
            invariant
                i <= self.method_calls.len(),
                calls@.len() == i,
                forall|j: int| 0 <= j < i ==> (#[trigger] calls@[j])@ == call_json(call_view(self.method_calls@[j])),
            decreases self.method_calls.len() - i,
        {
            let c = &self.method_calls[i];
            let mut parts: Vec<JsonValue> = Vec::new();
            parts.push(JsonValue::string(c.0.as_str()));
            parts.push(c.1.deep_clone());
            parts.push(JsonValue::string(c.2.as_str()));
            let e = JsonValue::array(parts);
            assert(views(parts@) =~= seq![Jv::Str(c.0@), c.1@, Jv::Str(c.2@)]);
            calls.push(e);
            i = i + 1;
        }
        let calls_v = JsonValue::array(calls);
        assert(views(calls@) =~= self.calls_view().map_values(|c: (Seq<char>, Jv, Seq<char>)| call_json(c)));
        assert(texts(self.using@).map_values(|s: Seq<char>| Jv::Str(s)) =~= self.using_view().map_values(|s: Seq<char>| Jv::Str(s)));
        let o = JsonObject::new().with("using", using).with("methodCalls", calls_v);
        let r = JsonValue::object(o);
        assert(r@ == request_json(self.using_view(), self.calls_view()));
        r
    }
}

/// A method response read from its JSON form.
fn read_call(j: &JsonValue) -> (r: Option<MethodResponse>)
    ensures
        match r {
            Some(c) => decode_call(j@) == Some(call_view(c)),
            None => decode_call(j@) is None,
        },
{
    proof { j.lemma_view(); }
    match j {
        JsonValue::Array(a) => {
            if a.len() != 3 {
                return None;
            }
            match (a[0].as_str(), a[2].as_str()) {
                (Some(n), Some(id)) => Some((text::own(n), a[1].deep_clone(), text::own(id))),
                _ => None,
            }
        },
        _ => None,
    }
}

impl JmapResponse {
    /// The method responses as values.
    pub open spec fn responses_view(self) -> Seq<(Seq<char>, Jv, Seq<char>)> {
        self.method_responses@.map_values(|c: MethodResponse| call_view(c))
    }

    /// Read a response document; a document of the wrong shape is a JSON error.
    pub fn from_json(j: &JsonValue) -> (r: Result<JmapResponse, Error>)
        ensures
            match r {
                Ok(resp) => decode_response(j@) == Some((resp.responses_view(), resp.session_state@)),
                Err(e) => decode_response(j@) is None && e is Json,
            },
    {
        proof { j.lemma_view(); }
        let o = match j.as_object() {
            Some(o) => o,
            None => return Err(Error::Json(text::own("JMAP response is not an object"))),
        };
        let mut responses: Vec<MethodResponse> = Vec::new();
        match o.get("methodResponses") {
            None => {},
            Some(mr) => {
                let a = match mr.as_array() {
                    Some(a) => a,
                    None => return Err(Error::Json(text::own("methodResponses is not an array"))),
                };
                let ghost av = mr@->Arr_0;
                let mut i: usize = 0;
                while i < a.len()
                    invariant
                        i <= a.len(),
                        av.len() == a@.len(),
                        j@ == Jv::Obj(o@),
                        o@.contains_key("methodResponses"@) && o@["methodResponses"@] == mr@,
                        mr@ == Jv::Arr(av),
                        forall|k: int| 0 <= k < a@.len() ==> (#[trigger] a@[k])@ == av[k],
                        responses@.len() == i,
                        forall|k: int| 0 <= k < i ==> decode_call(av[k]) == Some(call_view(#[trigger] responses@[k])),
                    decreases a.len() - i,
                {
                    match read_call(&a[i]) {
                        Some(c) => responses.push(c),
                        None => {
                            assert(!all_calls(av));
                            assert(j@ == Jv::Obj(o@));
                            assert(o@["methodResponses"@] == mr@);
                            return Err(Error::Json(text::own("malformed method response")));
                        },
                    }
                    i = i + 1;
                }
                assert forall|k: int| 0 <= k < av.len() implies (#[trigger] decode_call(av[k])) is Some by {
                    assert(decode_call(av[k]) == Some(call_view(responses@[k])));
                }
                assert(all_calls(av));
                assert(av.map_values(|x: Jv| decode_call(x)->0) =~= responses@.map_values(|c: MethodResponse| call_view(c)));
            },
        }
        let session_state = match read_str(o, "sessionState") {
            Some(s) => s,
            None => return Err(Error::Json(text::own("sessionState is not a string"))),
        };
        let r = JmapResponse { method_responses: responses, session_state };
        proof {
            if !o@.contains_key("methodResponses"@) {
                assert(r.responses_view() =~= Seq::<(Seq<char>, Jv, Seq<char>)>::empty());
            }
        }
        Ok(r)
    }
}

/// A blob id: the handle of a stored binary object.
#[derive(Debug, PartialEq, Eq)]
pub struct BlobId(pub String);

impl Clone for BlobId {
    fn clone(&self) -> (r: Self)
        ensures
            r.0@ == self.0@,
    {
        BlobId(self.0.clone())
    }
}

impl BlobId {
    pub fn as_str(&self) -> (r: &str)
        ensures
            r@ == self.0@,
    {
        self.0.as_str()
    }
}

/// A map from text keys to text values.
#[derive(Debug)]
pub struct StrMap {
    inner: JsonObject,
}

/// The texts of a map of string values.
pub open spec fn str_values(m: Map<Seq<char>, Jv>) -> Map<Seq<char>, Seq<char>> {
    m.map_values(|j: Jv| j->Str_0)
}

/// Whether every value of `m` is a string.
pub open spec fn all_str_values(m: Map<Seq<char>, Jv>) -> bool {
    forall|k: Seq<char>| #[trigger] m.contains_key(k) ==> m[k] is Str
}

impl View for StrMap {
    type V = Map<Seq<char>, Seq<char>>;

    closed spec fn view(&self) -> Map<Seq<char>, Seq<char>> {
        str_values(self.inner@)
    }
}

impl StrMap {
    #[verifier::type_invariant]
    spec fn wf(self) -> bool {
        all_str_values(self.inner@)
    }

    /// The empty map.
    pub fn new() -> (r: StrMap)
        ensures
            r@ == Map::<Seq<char>, Seq<char>>::empty(),
    {
        let r = StrMap { inner: JsonObject::new() };
        assert(r@ =~= Map::<Seq<char>, Seq<char>>::empty());
        r
    }

    /// Set `key` to `value`, replacing any previous value.
    pub fn insert(&mut self, key: String, value: String)
        ensures
            final(self)@ == old(self)@.insert(key@, value@),
    {
        proof { use_type_invariant(&*self); }
        let ghost k = key@;
        let ghost v = value@;
        let mut o = JsonObject::new();
        std::mem::swap(&mut o, &mut self.inner);
        let ghost before = o@;
        o.insert(key, JsonValue::Str(value));
        proof {
            JsonValue::Str(value).lemma_view();
            assert(o@ == before.insert(k, Jv::Str(v)));
            assert(all_str_values(o@));
            assert(str_values(o@) =~= str_values(before).insert(k, v));
        }
        self.inner = o;
    }

    /// The value of `key`, if present.
    pub fn get(&self, key: &str) -> (r: Option<&str>)
        ensures
            match r {
                Some(v) => self@.contains_key(key@) && self@[key@] == v@,
                None => !self@.contains_key(key@),
            },
    {
        proof { use_type_invariant(&*self); }
        match self.inner.get(key) {
            Some(v) => v.as_str(),
            None => None,
        }
    }

    /// The map an object of strings denotes; `None` when some value is not a string.
    pub fn from_object(o: &JsonObject) -> (r: Option<StrMap>)
        ensures
            match r {
                Some(m) => all_str_values(o@) && m@ == str_values(o@),
                None => !all_str_values(o@),
            },
    {
        let ms = o.members();
        let mut i: usize = 0;
        while i < ms.len()
            invariant
                i <= ms@.len(),
                ms@.len() == o@.len(),
                forall|j: int| 0 <= j < ms@.len() ==> #[trigger] o@.contains_key(ms@[j].0@) && o@[ms@[j].0@] == ms@[j].1@,
                forall|k: Seq<char>| #[trigger] o@.contains_key(k) ==> exists|j: int| 0 <= j < ms@.len() && ms@[j].0@ == k,
                forall|j: int| 0 <= j < i ==> (#[trigger] ms@[j]).1@ is Str,
            decreases ms.len() - i,
        {
            if ms[i].1.as_str().is_none() {
                assert(o@.contains_key(ms@[i as int].0@));
                return None;
            }
            i = i + 1;
        }
        assert forall|k: Seq<char>| #[trigger] o@.contains_key(k) implies o@[k] is Str by {
            let j = choose|j: int| 0 <= j < ms@.len() && ms@[j].0@ == k;
            assert(ms@[j].1@ is Str);
        }
        let r = StrMap { inner: o.deep_clone() };
        Some(r)
    }
}

/// An account the session grants access to.
#[derive(Debug, Clone)]
pub struct Account {
    pub name: String,
    pub is_read_only: bool,
}

/// The JMAP session resource.
#[derive(Debug)]
pub struct Session {
    pub username: String,
    pub api_url: String,
    pub download_url: String,
    pub upload_url: String,
    pub primary_accounts: StrMap,
    pub accounts: Vec<(String, Account)>,
}

/// The capability whose primary account is the session's account.
pub open spec fn core_capability() -> Seq<char> {
    "urn:ietf:params:jmap:core"@
}

/// An account read from its JSON form (members default when absent).
pub open spec fn decode_account(j: Jv) -> Option<(Seq<char>, bool)> {
    match j {
        Jv::Obj(m) => if str_member(m, "name"@) is Some && crate::json::bool_member(m, "isReadOnly"@) is Some {
            Some((str_member(m, "name"@)->0, crate::json::bool_member(m, "isReadOnly"@)->0))
        } else {
            None
        },
        _ => None,
    }
}

/// Whether a session document is well formed: an object whose string members are strings,
/// whose `primaryAccounts` maps to strings and whose `accounts` maps to account objects
/// (each member defaulting when absent).
pub open spec fn session_ok(j: Jv) -> bool {
    match j {
        Jv::Obj(m) => {
            &&& str_member(m, "username"@) is Some
            &&& str_member(m, "apiUrl"@) is Some
            &&& str_member(m, "downloadUrl"@) is Some
            &&& str_member(m, "uploadUrl"@) is Some
            &&& obj_member(m, "primaryAccounts"@) matches Some(p) && all_str_values(p)
            &&& obj_member(m, "accounts"@) matches Some(a)
                && forall|k: Seq<char>| #[trigger] a.contains_key(k) ==> decode_account(a[k]) is Some
        },
        _ => false,
    }
}

impl Session {
    /// Whether this session's members are those document `j` holds.
    pub open spec fn read_from(self, j: Jv) -> bool {
        &&& j is Obj
        &&& str_member(j->Obj_0, "username"@) == Some(self.username@)
        &&& str_member(j->Obj_0, "apiUrl"@) == Some(self.api_url@)
        &&& str_member(j->Obj_0, "downloadUrl"@) == Some(self.download_url@)
        &&& str_member(j->Obj_0, "uploadUrl"@) == Some(self.upload_url@)
        &&& obj_member(j->Obj_0, "primaryAccounts"@) is Some
        &&& self.primary_accounts@ == str_values(obj_member(j->Obj_0, "primaryAccounts"@)->0)
    }

    /// A session with every member empty.
    pub fn default() -> (r: Session)
        ensures
            r.username@.len() == 0,
            r.api_url@.len() == 0,
            r.download_url@.len() == 0,
            r.upload_url@.len() == 0,
            r.primary_accounts@ == Map::<Seq<char>, Seq<char>>::empty(),
            r.accounts@.len() == 0,
    {
        Session {
            username: String::new(),
            api_url: String::new(),
            download_url: String::new(),
            upload_url: String::new(),
            primary_accounts: StrMap::new(),
            accounts: Vec::new(),
        }
    }

    /// The primary account for the core capability.
    pub fn primary_account_id(&self) -> (r: Option<&str>)
        ensures
            match r {
                Some(id) => self.primary_accounts@.contains_key(core_capability())
                    && self.primary_accounts@[core_capability()] == id@,
                None => !self.primary_accounts@.contains_key(core_capability()),
            },
    {
        self.primary_accounts.get("urn:ietf:params:jmap:core")
    }

    /// Read a session document; one of the wrong shape is a JSON error.
    pub fn from_json(j: &JsonValue) -> (r: Result<Session, Error>)
        ensures
            match r {
                Ok(s) => session_ok(j@) && s.read_from(j@),
                Err(e) => !session_ok(j@) && e is Json,
            },
    {
        proof { j.lemma_view(); }
        let bad = Error::Json(text::own("malformed JMAP session"));
        let o = match j.as_object() {
            Some(o) => o,
            None => return Err(bad),
        };
        let username = match read_str(o, "username") { Some(s) => s, None => return Err(bad) };
        let api_url = match read_str(o, "apiUrl") { Some(s) => s, None => return Err(bad) };
        let download_url = match read_str(o, "downloadUrl") { Some(s) => s, None => return Err(bad) };
        let upload_url = match read_str(o, "uploadUrl") { Some(s) => s, None => return Err(bad) };
        let primary_accounts = match o.get("primaryAccounts") {
            None => {
                let m = StrMap::new();
                assert(m@ =~= str_values(Map::<Seq<char>, Jv>::empty()));
                m
            },
            Some(p) => match p.as_object() {
                Some(po) => match StrMap::from_object(po) {
                    Some(m) => m,
                    None => return Err(bad),
                },
                None => return Err(bad),
            },
        };
        let mut accounts: Vec<(String, Account)> = Vec::new();
        match o.get("accounts") {
            None => {},
            Some(a) => match a.as_object() {
                None => return Err(bad),
                Some(ao) => {
                    let ms = ao.members();
                    let mut i: usize = 0;
                    while i < ms.len()
                        invariant
                            i <= ms@.len(),
                            bad is Json,
                            j@ == Jv::Obj(o@),
                            o@.contains_key("accounts"@) && o@["accounts"@] == a@,
                            a@ == Jv::Obj(ao@),
                            forall|jj: int| 0 <= jj < ms@.len() ==> #[trigger] ao@.contains_key(ms@[jj].0@) && ao@[ms@[jj].0@] == ms@[jj].1@,
                            forall|k: Seq<char>| #[trigger] ao@.contains_key(k) ==> exists|jj: int| 0 <= jj < ms@.len() && ms@[jj].0@ == k,
                            forall|jj: int| 0 <= jj < i ==> decode_account((#[trigger] ms@[jj]).1@) is Some,
                        decreases ms.len() - i,
                    {
                        let e = &ms[i].1;
                        proof { e.lemma_view(); }
                        let acct = match e.as_object() {
                            Some(eo) => match (read_str(eo, "name"), read_bool(eo, "isReadOnly")) {
                                (Some(n), Some(ro)) => Account { name: n, is_read_only: ro },
                                _ => {
                                    assert(ao@.contains_key(ms@[i as int].0@));
                                    return Err(bad);
                                },
                            },
                            None => {
                                assert(ao@.contains_key(ms@[i as int].0@));
                                return Err(bad);
                            },
                        };
                        accounts.push((ms[i].0.clone(), acct));
                        i = i + 1;
                    }
                    assert forall|k: Seq<char>| #[trigger] ao@.contains_key(k) implies decode_account(ao@[k]) is Some by {
                        let jj = choose|jj: int| 0 <= jj < ms@.len() && ms@[jj].0@ == k;
                        assert(decode_account(ms@[jj].1@) is Some);
                    }
                },
            },
        }
        Ok(Session { username, api_url, download_url, upload_url, primary_accounts, accounts })
    }
}

/// The JSON form of a back-reference to result `path` of call `result_of` (method `name`).
pub open spec fn back_reference_json(result_of: Seq<char>, name: Seq<char>, path: Seq<char>) -> Jv {
    Jv::Obj(map!["resultOf"@ => Jv::Str(result_of), "name"@ => Jv::Str(name), "path"@ => Jv::Str(path)])
}

/// Build a back-reference for chaining JMAP method calls.
pub fn back_reference(result_of: &str, name: &str, path: &str) -> (r: JsonValue)
    ensures
        r@ == back_reference_json(result_of@, name@, path@),
{
    let o = JsonObject::new()
        .with("resultOf", JsonValue::string(result_of))
        .with("name", JsonValue::string(name))
        .with("path", JsonValue::string(path));
    let r = JsonValue::object(o);
    assert(r@ == back_reference_json(result_of@, name@, path@));
    r
}

} // verus!
