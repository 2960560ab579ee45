//! Identity tools: the addresses the account sends as.

use vstd::prelude::*;

use crate::actions::{all_object_schemas, field_texts, prop_names, prop_kinds, prop_docs, prop_enums, schemas_limited, one_of, unlimited, schemas_described, described, schema, schemas_declare, schemas_typed, typed, tool_heads, Action, Context};
use crate::error::Error;
use crate::jmap::client::{last_reply, single_failed, single_ok, single_sent, Exchange, HttpTransport, Exchanged};
use crate::json::{JsonValue, Jv};
use crate::mcp::types::Tool;

verus! {

/// The names and descriptions of the identity tools.
pub open spec fn tool_list() -> Seq<(Seq<char>, Seq<char>)> {
    seq![("list_identities"@, "List sending identities (From addresses)"@)]
}

/// The property names and required fields of the identity tools' schemas.
pub open spec fn tool_fields() -> Seq<(Seq<Seq<char>>, Seq<Seq<char>>)> {
    seq![(seq![], seq![])]
}

/// The declared types of the properties of the identity tools' schemas.
pub open spec fn tool_types() -> Seq<Seq<(Seq<char>, Jv)>> {
    seq![
        Seq::empty()
    ]
}

/// The descriptions of the properties of the identity tools' schemas.
pub open spec fn tool_docs() -> Seq<Seq<(Seq<char>, Jv)>> {
    seq![
        Seq::<(Seq<char>, Jv)>::empty()
    ]
}

/// The values the properties of the identity tools' schemas are limited to.
pub open spec fn tool_enums() -> Seq<Seq<(Seq<char>, Jv)>> {
    seq![
        Seq::<(Seq<char>, Jv)>::empty()
    ]
}

/// The identity tools.
pub fn tools() -> (r: Vec<Tool>)
    ensures
        tool_heads(r@) == tool_list(),
        all_object_schemas(r@),
        schemas_declare(r@, tool_fields()),
        schemas_typed(r@, tool_types()),
        schemas_described(r@, tool_docs()),
        schemas_limited(r@, tool_enums()),
{
    let props: Vec<(&str, JsonValue)> = Vec::new();
    let none: [&str; 0] = [];
    proof {
        assert(prop_names(props@) =~= Seq::<Seq<char>>::empty());
        assert(prop_kinds(props@) =~= Seq::<(Seq<char>, Jv)>::empty());
        assert(field_texts(none@) =~= Seq::<Seq<char>>::empty());
    }
    let r = vec![Tool::new("list_identities", "List sending identities (From addresses)", schema(props, none.as_slice()))];
    assert(tool_heads(r@) =~= seq![("list_identities"@, "List sending identities (From addresses)"@)]);
        assert(prop_docs(props@) =~= Seq::<(Seq<char>, Jv)>::empty());
        assert(prop_enums(props@) =~= Seq::<(Seq<char>, Jv)>::empty());
    r
}

/// Every sending identity, as the server sent it.
pub struct ListIdentities;

impl ListIdentities {
    /// What running this action does, the exchanges it makes taking the log from
    /// `before` to `after` (see `run`).
    pub open spec fn outcome(self, ctx: Context, before: Seq<Exchanged>, after: Seq<Exchanged>, r: Result<JsonValue, Error>) -> bool {
        &&& (single_sent(ctx.jmap, before, after, "urn:ietf:params:jmap:submission"@, "Identity/get"@, Jv::Obj(map!["accountId"@ => Jv::Str(ctx.account_id@)])))
        &&& (match single_ok("Identity/get"@, last_reply(after)) {
            Some(j) => crate::jmap::list_passed(j, r),
            None => (r matches Err(e) && single_failed("Identity/get"@, last_reply(after), e)),
        })
    }
}

impl Action for ListIdentities {
    fn run<T: HttpTransport>(&self, ctx: &Context, t: &mut Exchange<T>) -> (r: Result<JsonValue, Error>)
        ensures
            self.outcome(*ctx, old(t).log(), final(t).log(), r),
    {
        match ctx.jmap.identity_get(t, ctx.account_id.as_str()) {
            Ok(response) => Ok(JsonValue::array(response.list)),
            Err(e) => Err(e),
        }
    }
}

} // verus!
