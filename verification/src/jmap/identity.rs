//! JMAP `Identity`: the addresses an account sends as.

use vstd::prelude::*;

use crate::error::Error;
use crate::jmap::client::{last_reply, single_failed, single_ok, single_sent, Exchange, HttpTransport, JmapClient};
use crate::jmap::{account_args, GetResponse};
use crate::text;
use crate::json::{JsonValue, Jv};

verus! {

/// A JMAP `Identity` id.
#[derive(Debug, PartialEq, Eq)]
pub struct IdentityId(pub String);

impl Clone for IdentityId {
    fn clone(&self) -> (r: Self)
        ensures
            r.0@ == self.0@,
    {
        IdentityId(self.0.clone())
    }
}

impl IdentityId {
    pub fn as_str(&self) -> (r: &str)
        ensures
            r@ == self.0@,
    {
        self.0.as_str()
    }

    /// The id as text, as it is shown.
    pub fn to_string(&self) -> (r: String)
        ensures
            r@ == self.0@,
    {
        text::own(self.0.as_str())
    }
}

/// A `Identity` object, every property kept.
pub type Identity = JsonValue;

/// A `Identity/get` response.
pub type IdentityGetResponse = GetResponse;

impl JmapClient {
    /// A `Identity/get` of every object of the account, every property kept.
    pub fn identity_get<T: HttpTransport>(&self, t: &mut Exchange<T>, account_id: &str) -> (r: Result<IdentityGetResponse, Error>)
        ensures
            single_sent(*self, old(t).log(), final(t).log(), "urn:ietf:params:jmap:submission"@, "Identity/get"@, Jv::Obj(map!["accountId"@ => Jv::Str(account_id@)])),
            match single_ok("Identity/get"@, last_reply(final(t).log())) {
                Some(j) => crate::jmap::get_outcome(j, r),
                None => (r matches Err(e) && single_failed("Identity/get"@, last_reply(final(t).log()), e)),
            },
    {
        match self.call_one(t, "urn:ietf:params:jmap:submission", "Identity/get", account_args(account_id)) {
            Ok(data) => GetResponse::from_json(&data),
            Err(e) => Err(e),
        }
    }
}

} // verus!
