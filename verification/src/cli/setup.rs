//! Showing the configuration, and the configured token without revealing it.

use vstd::prelude::*;

use crate::config::TokenSource;
use crate::error::Error;
use crate::json::{JsonObject, JsonValue, Jv};
use crate::text;

verus! {

/// A token shown masked: a star per character when it has at most 12 characters, else
/// its first 8 characters, `...`, and its last 4 characters.
pub open spec fn masked(token: Seq<char>) -> Seq<char> {
    if token.len() <= 12 {
        Seq::new(token.len(), |i: int| '*')
    } else {
        token.subrange(0, 8) + "..."@ + token.subrange(token.len() - 4, token.len() as int)
    }
}

/// Mask a token for display (see `masked`).
pub fn mask_token(token: &str) -> (r: String)
    ensures
        r@ == masked(token@),
{
    let cs = text::chars_of(token);
    let n = cs.len();
    let mut out: Vec<char> = Vec::new();
    if n <= 12 {
        let mut i: usize = 0;
        while i < n
            invariant
                i <= n,
                out@ == Seq::new(i as nat, |k: int| '*'),
            decreases n - i,
        {
            out.push('*');
            i = i + 1;
            assert(out@ =~= Seq::new(i as nat, |k: int| '*'));
        }
        return text::string_of(&out);
    }
    let mut i: usize = 0;
    while i < 8
        invariant
            i <= 8,
            n == cs@.len(),
            n > 12,
            out@ == cs@.subrange(0, i as int),
        decreases 8 - i,
    {
        out.push(cs[i]);
        i = i + 1;
        assert(out@ =~= cs@.subrange(0, i as int));
    }
    out.push('.');
    out.push('.');
    out.push('.');
    proof { reveal_strlit("..."); }
    assert(out@ =~= cs@.subrange(0, 8) + "..."@);
    let ghost head = out@;
    let mut k: usize = n - 4;
    while k < n
        invariant
            n > 12,
            n - 4 <= k <= n,
            n == cs@.len(),
            out@ == head + cs@.subrange(n - 4, k as int),
        decreases n - k,
    {
        out.push(cs[k]);
        k = k + 1;
        assert(out@ =~= head + cs@.subrange(n - 4, k as int));
    }
    text::string_of(&out)
}

/// How the source of the token is named.
pub open spec fn source_text(s: TokenSource) -> Seq<char> {
    match s {
        TokenSource::EnvVar => "FASTMAIL_API_TOKEN env var"@,
        TokenSource::ConfigFile => "config file"@,
    }
}

/// What `config` reports: the config file's path and whether it exists, where the token
/// came from, and the token masked.
#[derive(Debug)]
pub struct ConfigReport {
    pub config_path: String,
    pub config_exists: bool,
    pub token_source: String,
    pub token: String,
}

/// The report's JSON form.
pub open spec fn report_json(r: ConfigReport) -> Jv {
    Jv::Obj(map![
        "config_path"@ => Jv::Str(r.config_path@),
        "config_exists"@ => Jv::Bool(r.config_exists),
        "token_source"@ => Jv::Str(r.token_source@),
        "token"@ => Jv::Str(r.token@)
    ])
}

/// The report on a config file at `path` (existing or not) and on the token resolution:
/// the token masked and its source named, or "(not set)" from "none" when none resolved.
pub fn config_report(path: &str, exists: bool, resolved: &Result<(String, TokenSource), Error>) -> (r: ConfigReport)
    ensures
        r.config_path@ == path@,
        r.config_exists == exists,
        match *resolved {
            Ok((t, s)) => r.token@ == masked(t@) && r.token_source@ == source_text(s),
            Err(_) => r.token@ == "(not set)"@ && r.token_source@ == "none"@,
        },
{
    let (token, token_source) = match resolved {
        Ok((t, s)) => {
            let shown = mask_token(t.as_str());
            let source = match s {
                TokenSource::EnvVar => text::own("FASTMAIL_API_TOKEN env var"),
                TokenSource::ConfigFile => text::own("config file"),
            };
            (shown, source)
        },
        Err(_) => (text::own("(not set)"), text::own("none")),
    };
    ConfigReport { config_path: text::own(path), config_exists: exists, token_source, token }
}

impl ConfigReport {
    /// The report as JSON (see `report_json`).
    pub fn to_json(&self) -> (r: JsonValue)
        ensures
            r@ == report_json(*self),
    {
        proof { JsonValue::Bool(self.config_exists).lemma_view(); }
        let o = JsonObject::new()
            .with("config_path", JsonValue::string(self.config_path.as_str()))
            .with("config_exists", JsonValue::Bool(self.config_exists))
            .with("token_source", JsonValue::string(self.token_source.as_str()))
            .with("token", JsonValue::string(self.token.as_str()));
        let r = JsonValue::object(o);
        assert(r@->Obj_0 =~= report_json(*self)->Obj_0);
        r
    }

    /// The config file as shown to a person: its path, or "(not created)".
    pub fn shown_path(&self) -> (r: String)
        ensures
            r@ == (if self.config_exists { self.config_path@ } else { "(not created)"@ }),
    {
        if self.config_exists {
            text::own(self.config_path.as_str())
        } else {
            text::own("(not created)")
        }
    }
}

} // verus!
