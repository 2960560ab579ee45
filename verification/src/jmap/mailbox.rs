//! JMAP `Mailbox`: the folders of an account.

use vstd::prelude::*;

use crate::error::Error;
use crate::jmap::client::{last_reply, single_failed, single_ok, single_sent, Exchange, HttpTransport, JmapClient};
use crate::jmap::{account_args, set_args_of, GetResponse, SetResponse};
use crate::text;
use crate::json::{JsonValue, Jv};

verus! {

/// A JMAP `Mailbox` id.
#[derive(Debug, PartialEq, Eq)]
pub struct MailboxId(pub String);

impl Clone for MailboxId {
    fn clone(&self) -> (r: Self)
        ensures
            r.0@ == self.0@,
    {
        MailboxId(self.0.clone())
    }
}

impl MailboxId {
    pub fn as_str(&self) -> (r: &str)
        ensures
            r@ == self.0@,
    {
        self.0.as_str()
    }

    /// The id as text, as it is shown.
    pub fn to_string(&self) -> (r: String)
        ensures
            r@ == self.0@,
    {
        text::own(self.0.as_str())
    }
}

/// A `Mailbox` object, every property kept.
pub type Mailbox = JsonValue;

/// A `Mailbox/get` response.
pub type MailboxGetResponse = GetResponse;

/// A `Mailbox/set` response.
pub type MailboxSetResponse = SetResponse;

/// The texts of a list of ids.
pub open spec fn mailboxid_texts(ids: Seq<MailboxId>) -> Seq<Seq<char>> {
    ids.map_values(|i: MailboxId| i.0@)
}

/// The strings of a list of ids.
fn mailboxid_strings(ids: &[MailboxId]) -> (r: Vec<String>)
    ensures
        crate::json::texts(r@) == mailboxid_texts(ids@),
{
    let mut out: Vec<String> = Vec::new();
    let mut i: usize = 0;
    while i < ids.len()
        invariant
            i <= ids@.len(),
            out@.len() == i,
            forall|j: int| 0 <= j < i ==> (#[trigger] out@[j])@ == ids@[j].0@,
        decreases ids.len() - i,
    {
        out.push(ids[i].0.clone());
        i = i + 1;
    }
    assert(crate::json::texts(out@) =~= mailboxid_texts(ids@));
    out
}

impl JmapClient {
    /// A `Mailbox/get` of every object of the account, every property kept.
    pub fn mailbox_get<T: HttpTransport>(&self, t: &mut Exchange<T>, account_id: &str) -> (r: Result<MailboxGetResponse, Error>)
        ensures
            single_sent(*self, old(t).log(), final(t).log(), "urn:ietf:params:jmap:mail"@, "Mailbox/get"@, Jv::Obj(map!["accountId"@ => Jv::Str(account_id@)])),
            match single_ok("Mailbox/get"@, last_reply(final(t).log())) {
                Some(j) => crate::jmap::get_outcome(j, r),
                None => (r matches Err(e) && single_failed("Mailbox/get"@, last_reply(final(t).log()), e)),
            },
    {
        match self.call_one(t, "urn:ietf:params:jmap:mail", "Mailbox/get", account_args(account_id)) {
            Ok(data) => GetResponse::from_json(&data),
            Err(e) => Err(e),
        }
    }
}

impl JmapClient {
    /// A single `Mailbox/set`: create, update and/or destroy in one call (see `set_args`).
    pub fn mailbox_set<T: HttpTransport>(
        &self,
        t: &mut Exchange<T>,
        account_id: &str,
        create: Option<JsonValue>,
        update: Option<JsonValue>,
        destroy: &[MailboxId],
    ) -> (r: Result<MailboxSetResponse, Error>)
        ensures
            single_sent(*self, old(t).log(), final(t).log(), "urn:ietf:params:jmap:mail"@, "Mailbox/set"@, crate::jmap::set_args(account_id@, crate::jmap::opt_jv(create), crate::jmap::opt_jv(update), mailboxid_texts(destroy@))),
            match single_ok("Mailbox/set"@, last_reply(final(t).log())) {
                Some(j) => crate::jmap::set_outcome(j, r),
                None => (r matches Err(e) && single_failed("Mailbox/set"@, last_reply(final(t).log()), e)),
            },
    {
        let ids = mailboxid_strings(destroy);
        let args = set_args_of(account_id, create, update, &ids);
        match self.call_one(t, "urn:ietf:params:jmap:mail", "Mailbox/set", args) {
            Ok(data) => SetResponse::from_json(&data),
            Err(e) => Err(e),
        }
    }
}

} // verus!
