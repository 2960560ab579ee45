//! JMAP `VacationResponse`: the account's automatic reply.

use vstd::prelude::*;

use crate::error::Error;
use crate::jmap::client::{last_reply, single_failed, single_ok, single_sent, Exchange, HttpTransport, JmapClient};
use crate::jmap::{account_args, GetResponse, SetResponse};
use crate::text;
use crate::json::{JsonValue, Jv};

verus! {

/// A JMAP `VacationResponse` id.
#[derive(Debug, PartialEq, Eq)]
pub struct VacationResponseId(pub String);

impl Clone for VacationResponseId {
    fn clone(&self) -> (r: Self)
        ensures
            r.0@ == self.0@,
    {
        VacationResponseId(self.0.clone())
    }
}

impl VacationResponseId {
    pub fn as_str(&self) -> (r: &str)
        ensures
            r@ == self.0@,
    {
        self.0.as_str()
    }

    /// The id as text, as it is shown.
    pub fn to_string(&self) -> (r: String)
        ensures
            r@ == self.0@,
    {
        text::own(self.0.as_str())
    }
}

/// A `VacationResponse` object, every property kept.
pub type VacationResponse = JsonValue;

/// A `VacationResponse/get` response.
pub type VacationGetResponse = GetResponse;

/// A `VacationResponse/set` response.
pub type VacationSetResponse = SetResponse;

impl JmapClient {
    /// A `VacationResponse/get` of every object of the account, every property kept.
    pub fn vacation_get<T: HttpTransport>(&self, t: &mut Exchange<T>, account_id: &str) -> (r: Result<VacationGetResponse, Error>)
        ensures
            single_sent(*self, old(t).log(), final(t).log(), "urn:ietf:params:jmap:vacationresponse"@, "VacationResponse/get"@, Jv::Obj(map!["accountId"@ => Jv::Str(account_id@)])),
            match single_ok("VacationResponse/get"@, last_reply(final(t).log())) {
                Some(j) => crate::jmap::get_outcome(j, r),
                None => (r matches Err(e) && single_failed("VacationResponse/get"@, last_reply(final(t).log()), e)),
            },
    {
        match self.call_one(t, "urn:ietf:params:jmap:vacationresponse", "VacationResponse/get", account_args(account_id)) {
            Ok(data) => GetResponse::from_json(&data),
            Err(e) => Err(e),
        }
    }
}

/// The arguments of a `VacationResponse/set` that patches the singleton.
pub open spec fn vacation_set_args(account_id: Seq<char>, update: Jv) -> Jv {
    Jv::Obj(map!["accountId"@ => Jv::Str(account_id), "update"@ => Jv::Obj(map!["singleton"@ => update])])
}

/// The arguments of a `VacationResponse/set` that patches the singleton.
pub fn vacation_set_args_of(account_id: &str, update: JsonValue) -> (r: JsonValue)
    ensures
        r@ == vacation_set_args(account_id@, update@),
{
    let ghost u = update@;
    let inner = JsonValue::object(crate::json::JsonObject::new().with("singleton", update));
    let r = JsonValue::object(crate::json::JsonObject::new()
        .with("accountId", JsonValue::string(account_id))
        .with("update", inner));
    assert(inner@->Obj_0 =~= map!["singleton"@ => u]);
    assert(r@->Obj_0 =~= vacation_set_args(account_id@, u)->Obj_0);
    r
}

impl JmapClient {
    /// A single `VacationResponse/set` patching the singleton with `update`.
    pub fn vacation_set<T: HttpTransport>(&self, t: &mut Exchange<T>, account_id: &str, update: JsonValue) -> (r: Result<VacationSetResponse, Error>)
        ensures
            single_sent(*self, old(t).log(), final(t).log(), "urn:ietf:params:jmap:vacationresponse"@, "VacationResponse/set"@, vacation_set_args(account_id@, update@)),
            match single_ok("VacationResponse/set"@, last_reply(final(t).log())) {
                Some(j) => crate::jmap::set_outcome(j, r),
                None => (r matches Err(e) && single_failed("VacationResponse/set"@, last_reply(final(t).log()), e)),
            },
    {
        let args = vacation_set_args_of(account_id, update);
        match self.call_one(t, "urn:ietf:params:jmap:vacationresponse", "VacationResponse/set", args) {
            Ok(data) => SetResponse::from_json(&data),
            Err(e) => Err(e),
        }
    }
}

} // verus!
