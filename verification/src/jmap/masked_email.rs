//! JMAP `MaskedEmail`: FastMail's per-site forwarding addresses.

use vstd::prelude::*;

use crate::error::Error;
use crate::jmap::client::{last_reply, single_failed, single_ok, single_sent, Exchange, HttpTransport, JmapClient};
use crate::jmap::{account_args, set_args_of, GetResponse, SetResponse};
use crate::text;
use crate::json::{JsonValue, Jv};

verus! {

/// A JMAP `MaskedEmail` id.
#[derive(Debug, PartialEq, Eq)]
pub struct MaskedEmailId(pub String);

impl Clone for MaskedEmailId {
    fn clone(&self) -> (r: Self)
        ensures
            r.0@ == self.0@,
    {
        MaskedEmailId(self.0.clone())
    }
}

impl MaskedEmailId {
    pub fn as_str(&self) -> (r: &str)
        ensures
            r@ == self.0@,
    {
        self.0.as_str()
    }

    /// The id as text, as it is shown.
    pub fn to_string(&self) -> (r: String)
        ensures
            r@ == self.0@,
    {
        text::own(self.0.as_str())
    }
}

/// A `MaskedEmail` object, every property kept.
pub type MaskedEmail = JsonValue;

/// A `MaskedEmail/get` response.
pub type MaskedEmailGetResponse = GetResponse;

/// A `MaskedEmail/set` response.
pub type MaskedEmailSetResponse = SetResponse;

/// The texts of a list of ids.
pub open spec fn maskedemailid_texts(ids: Seq<MaskedEmailId>) -> Seq<Seq<char>> {
    ids.map_values(|i: MaskedEmailId| i.0@)
}

/// The strings of a list of ids.
fn maskedemailid_strings(ids: &[MaskedEmailId]) -> (r: Vec<String>)
    ensures
        crate::json::texts(r@) == maskedemailid_texts(ids@),
{
    let mut out: Vec<String> = Vec::new();
    let mut i: usize = 0;
    while i < ids.len()
        invariant
            i <= ids@.len(),
            out@.len() == i,
            forall|j: int| 0 <= j < i ==> (#[trigger] out@[j])@ == ids@[j].0@,
        decreases ids.len() - i,
    {
        out.push(ids[i].0.clone());
        i = i + 1;
    }
    assert(crate::json::texts(out@) =~= maskedemailid_texts(ids@));
    out
}

impl JmapClient {
    /// A `MaskedEmail/get` of every object of the account, every property kept.
    pub fn masked_email_get<T: HttpTransport>(&self, t: &mut Exchange<T>, account_id: &str) -> (r: Result<MaskedEmailGetResponse, Error>)
        ensures
            single_sent(*self, old(t).log(), final(t).log(), "https://www.fastmail.com/dev/maskedemail"@, "MaskedEmail/get"@, Jv::Obj(map!["accountId"@ => Jv::Str(account_id@)])),
            match single_ok("MaskedEmail/get"@, last_reply(final(t).log())) {
                Some(j) => crate::jmap::get_outcome(j, r),
                None => (r matches Err(e) && single_failed("MaskedEmail/get"@, last_reply(final(t).log()), e)),
            },
    {
        match self.call_one(t, "https://www.fastmail.com/dev/maskedemail", "MaskedEmail/get", account_args(account_id)) {
            Ok(data) => GetResponse::from_json(&data),
            Err(e) => Err(e),
        }
    }
}

impl JmapClient {
    /// A single `MaskedEmail/set`: create, update and/or destroy in one call (see `set_args`).
    pub fn masked_email_set<T: HttpTransport>(
        &self,
        t: &mut Exchange<T>,
        account_id: &str,
        create: Option<JsonValue>,
        update: Option<JsonValue>,
        destroy: &[MaskedEmailId],
    ) -> (r: Result<MaskedEmailSetResponse, Error>)
        ensures
            single_sent(*self, old(t).log(), final(t).log(), "https://www.fastmail.com/dev/maskedemail"@, "MaskedEmail/set"@, crate::jmap::set_args(account_id@, crate::jmap::opt_jv(create), crate::jmap::opt_jv(update), maskedemailid_texts(destroy@))),
            match single_ok("MaskedEmail/set"@, last_reply(final(t).log())) {
                Some(j) => crate::jmap::set_outcome(j, r),
                None => (r matches Err(e) && single_failed("MaskedEmail/set"@, last_reply(final(t).log()), e)),
            },
    {
        let ids = maskedemailid_strings(destroy);
        let args = set_args_of(account_id, create, update, &ids);
        match self.call_one(t, "https://www.fastmail.com/dev/maskedemail", "MaskedEmail/set", args) {
            Ok(data) => SetResponse::from_json(&data),
            Err(e) => Err(e),
        }
    }
}

} // verus!
