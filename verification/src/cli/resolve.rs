//! Resolving a mailbox the user names: a role alias, else a name matched exactly, by
//! prefix, or by substring, ignoring case.

use vstd::prelude::*;

use crate::actions::mailbox::ListMailboxes;
use crate::actions::{str_member_of, Action, Context};
use crate::cli::io::{Io, OutputMode};
use crate::error::Error;
use crate::jmap::client::{last_reply, single_failed, single_ok, single_sent, Exchange, HttpTransport};
use crate::jmap::{get_list, get_ok};
use crate::json::{views, JsonValue, Jv};
use crate::text;

verus! {

/// The JMAP role a built-in alias names.
pub open spec fn alias_role(input: Seq<char>) -> Option<Seq<char>> {
    if input == "inbox"@ {
        Some("inbox"@)
    } else if input == "sent"@ {
        Some("sent"@)
    } else if input == "drafts"@ {
        Some("drafts"@)
    } else if input == "trash"@ {
        Some("trash"@)
    } else if input == "junk"@ {
        Some("junk"@)
    } else if input == "spam"@ {
        Some("junk"@)
    } else if input == "archive"@ {
        Some("archive"@)
    } else {
        None
    }
}

/// Each built-in alias (`inbox`, `sent`, `drafts`, `trash`, `junk`, `archive`) names the
/// mailbox role of its own name; `spam` is the one alias that names another role,
/// `junk`. No other text is an alias.
pub proof fn law_alias_names_its_role(a: Seq<char>)
    ensures
        alias_role(a) matches Some(r) ==> (r == a || (a == "spam"@ && r == "junk"@)),
        (a == "inbox"@ || a == "sent"@ || a == "drafts"@ || a == "trash"@ || a == "junk"@ || a == "archive"@)
            ==> alias_role(a) == Some(a),
        a == "spam"@ ==> alias_role(a) == Some("junk"@),
        alias_role(a) is Some ==> (a == "inbox"@ || a == "sent"@ || a == "drafts"@ || a == "trash"@
            || a == "junk"@ || a == "archive"@ || a == "spam"@),
{
    reveal_strlit("inbox");
    reveal_strlit("sent");
    reveal_strlit("drafts");
    reveal_strlit("trash");
    reveal_strlit("junk");
    reveal_strlit("spam");
    reveal_strlit("archive");
    assert("inbox"@[0] != "trash"@[0]);
    assert("sent"@[0] != "junk"@[0] && "sent"@[1] != "spam"@[1] && "junk"@[0] != "spam"@[0]);
    assert("inbox"@.len() != "sent"@.len() && "inbox"@.len() != "drafts"@.len() && "sent"@.len() != "drafts"@.len());
    assert("drafts"@.len() != "trash"@.len() && "trash"@.len() != "junk"@.len() && "archive"@.len() != "spam"@.len());
}

/// Look up the JMAP role for a built-in alias (`spam` means `junk`).
pub fn role_for_alias(input: &str) -> (r: Option<&'static str>)
    ensures
        match alias_role(input@) {
            Some(role) => r matches Some(x) && x@ == role,
            None => r is None,
        },
{
    if text::str_eq(input, "inbox") {
        Some("inbox")
    } else if text::str_eq(input, "sent") {
        Some("sent")
    } else if text::str_eq(input, "drafts") {
        Some("drafts")
    } else if text::str_eq(input, "trash") {
        Some("trash")
    } else if text::str_eq(input, "junk") {
        Some("junk")
    } else if text::str_eq(input, "spam") {
        Some("junk")
    } else if text::str_eq(input, "archive") {
        Some("archive")
    } else {
        None
    }
}

/// The role of a mailbox (empty when it has none).
pub open spec fn role_of(m: Jv) -> Seq<char> {
    match str_member_of(m, "role"@) {
        Some(r) => r,
        None => Seq::empty(),
    }
}

/// The id of the first mailbox whose role is `role` and which has an id.
pub open spec fn by_role(ms: Seq<Jv>, role: Seq<char>) -> Option<Seq<char>>
    decreases ms.len(),
{
    if ms.len() == 0 {
        None
    } else if role_of(ms[0]) == role && str_member_of(ms[0], "id"@) is Some {
        str_member_of(ms[0], "id"@)
    } else {
        by_role(ms.drop_first(), role)
    }
}

/// Find a mailbox by its JMAP role.
pub fn find_by_role(mailboxes: &[JsonValue], role: &str) -> (r: Option<String>)
    ensures
        match by_role(views(mailboxes@), role@) {
            Some(id) => r matches Some(s) && s@ == id,
            None => r is None,
        },
{
    let ghost vs = views(mailboxes@);
    let mut i: usize = 0;
    assert(vs.subrange(0, vs.len() as int) == vs);
    while i < mailboxes.len()
        invariant
            i <= mailboxes@.len(),
            vs == views(mailboxes@),
            by_role(vs, role@) == by_role(vs.subrange(i as int, vs.len() as int), role@),
        decreases mailboxes.len() - i,
    {
        let m = &mailboxes[i];
        proof {
            let rest = vs.subrange(i as int, vs.len() as int);
            assert(rest[0] == m@);
            assert(rest.drop_first() =~= vs.subrange(i as int + 1, vs.len() as int));
        }
        let m_role = match m.get("role") {
            Some(x) => match x.as_str() {
                Some(s) => text::own(s),
                None => String::new(),
            },
            None => String::new(),
        };
        if text::str_eq(m_role.as_str(), role) {
            if let Some(x) = m.get("id") {
                if let Some(id) = x.as_str() {
                    return Some(text::own(id));
                }
            }
        }
        i = i + 1;
    }
    None
}

/// The (id, name) pairs of the mailboxes that have both, in order.
pub open spec fn named_entries(ms: Seq<Jv>) -> Seq<(Seq<char>, Seq<char>)>
    decreases ms.len(),
{
    if ms.len() == 0 {
        Seq::empty()
    } else {
        let before = named_entries(ms.drop_last());
        match (str_member_of(ms.last(), "id"@), str_member_of(ms.last(), "name"@)) {
            (Some(id), Some(name)) => before.push((id, name)),
            _ => before,
        }
    }
}

/// How a name matches an input: exactly, by prefix, or by substring (ignoring case).
pub open spec fn tier_match(name: Seq<char>, input: Seq<char>, tier: nat) -> bool {
    let n = text::lowercase(name);
    if tier == 0 {
        n == input
    } else if tier == 1 {
        text::has_prefix(n, input)
    } else {
        text::has_infix(n, input)
    }
}

/// The entries whose name matches `input` at `tier`, in order.
pub open spec fn tier_entries(es: Seq<(Seq<char>, Seq<char>)>, input: Seq<char>, tier: nat) -> Seq<(Seq<char>, Seq<char>)>
    decreases es.len(),
{
    if es.len() == 0 {
        Seq::empty()
    } else if tier_match(es.last().1, input, tier) {
        tier_entries(es.drop_last(), input, tier).push(es.last())
    } else {
        tier_entries(es.drop_last(), input, tier)
    }
}

/// The candidates for `input` (already lower-cased): the exact matches if any, else the
/// prefix matches if any, else the substring matches.
pub open spec fn name_candidates(ms: Seq<Jv>, input: Seq<char>) -> Seq<(Seq<char>, Seq<char>)> {
    let es = named_entries(ms);
    if tier_entries(es, input, 0).len() > 0 {
        tier_entries(es, input, 0)
    } else if tier_entries(es, input, 1).len() > 0 {
        tier_entries(es, input, 1)
    } else {
        tier_entries(es, input, 2)
    }
}

/// The pairs as texts.
pub open spec fn pair_texts(v: Seq<(String, String)>) -> Seq<(Seq<char>, Seq<char>)> {
    v.map_values(|p: (String, String)| (p.0@, p.1@))
}

/// The entries whose name matches at `tier`.
fn entries_at(es: &Vec<(String, String)>, input: &str, tier: u8) -> (r: Vec<(String, String)>)
    requires
        tier <= 2,
    ensures
        pair_texts(r@) == tier_entries(pair_texts(es@), input@, tier as nat),
{
    let ghost src = pair_texts(es@);
    let mut out: Vec<(String, String)> = Vec::new();
    let mut i: usize = 0;
    assert(src.take(0) =~= Seq::<(Seq<char>, Seq<char>)>::empty());
    assert(pair_texts(out@) =~= Seq::<(Seq<char>, Seq<char>)>::empty());
    while i < es.len()
        invariant
            i <= es.len(),
            tier <= 2,
            src == pair_texts(es@),
            pair_texts(out@) == tier_entries(src.take(i as int), input@, tier as nat),
        decreases es.len() - i,
    {
        assert(src.take(i as int + 1).drop_last() =~= src.take(i as int));
        assert(src.take(i as int + 1).last() == (es@[i as int].0@, es@[i as int].1@));
        let n = text::to_lowercase(es[i].1.as_str());
        let hit = if tier == 0 {
            text::str_eq(n.as_str(), input)
        } else if tier == 1 {
            text::starts_with(n.as_str(), input)
        } else {
            text::contains(n.as_str(), input)
        };
        if hit {
            let ghost before = pair_texts(out@);
            out.push((es[i].0.clone(), es[i].1.clone()));
            assert(pair_texts(out@) =~= before.push((es@[i as int].0@, es@[i as int].1@)));
        }
        i = i + 1;
    }
    assert(src.take(es@.len() as int) =~= src);
    out
}

/// Match mailboxes by name, ignoring case: exact, then prefix, then substring, stopping
/// at the first tier with results (see `name_candidates`). `input` is lower case.
pub fn match_by_name(mailboxes: &[JsonValue], input: &str) -> (r: Vec<(String, String)>)
    ensures
        pair_texts(r@) == name_candidates(views(mailboxes@), input@),
{
    let ghost vs = views(mailboxes@);
    let mut es: Vec<(String, String)> = Vec::new();
    let mut i: usize = 0;
    assert(vs.take(0) =~= Seq::<Jv>::empty());
    assert(pair_texts(es@) =~= Seq::<(Seq<char>, Seq<char>)>::empty());
    while i < mailboxes.len()
        invariant
            i <= mailboxes@.len(),
            vs == views(mailboxes@),
            pair_texts(es@) == named_entries(vs.take(i as int)),
        decreases mailboxes.len() - i,
    {
        let m = &mailboxes[i];
        assert(vs.take(i as int + 1).drop_last() =~= vs.take(i as int));
        assert(vs.take(i as int + 1).last() == m@);
        let id = match m.get("id") {
            Some(x) => x.as_str(),
            None => None,
        };
        let name = match m.get("name") {
            Some(x) => x.as_str(),
            None => None,
        };
        match (id, name) {
            (Some(a), Some(b)) => {
                let ghost before = pair_texts(es@);
                es.push((text::own(a), text::own(b)));
                assert(pair_texts(es@) =~= before.push((a@, b@)));
            },
            _ => {},
        }
        i = i + 1;
    }
    assert(vs.take(mailboxes@.len() as int) =~= vs);
    let exact = entries_at(&es, input, 0);
    if exact.len() > 0 {
        return exact;
    }
    let prefix = entries_at(&es, input, 1);
    if prefix.len() > 0 {
        return prefix;
    }
    entries_at(&es, input, 2)
}

/// The label of a candidate in an interactive choice: `name  (id)`.
pub open spec fn candidate_label(id: Seq<char>, name: Seq<char>) -> Seq<char> {
    name + "  ("@ + id + ")"@
}

/// The labels of candidates in an interactive choice.
pub fn candidate_labels(candidates: &Vec<(String, String)>) -> (r: Vec<String>)
    ensures
        r@.len() == candidates@.len(),
        forall|i: int| 0 <= i < r@.len() ==> (#[trigger] r@[i])@ == candidate_label(candidates@[i].0@, candidates@[i].1@),
{
    let mut out: Vec<String> = Vec::new();
    let mut i: usize = 0;
    while i < candidates.len()
        invariant
            i <= candidates.len(),
            out@.len() == i,
            forall|j: int| 0 <= j < i ==> (#[trigger] out@[j])@ == candidate_label(candidates@[j].0@, candidates@[j].1@),
        decreases candidates.len() - i,
    {
        let a = text::concat3(candidates[i].1.as_str(), "  (", candidates[i].0.as_str());
        out.push(text::concat(a.as_str(), ")"));
        i = i + 1;
    }
    out
}

/// The id of the first candidate whose label is `selection`.
pub fn pick_candidate(candidates: &Vec<(String, String)>, selection: &str) -> (r: Result<String, Error>)
    ensures
        match r {
            Ok(id) => exists|i: int| 0 <= i < candidates@.len() && candidate_label(candidates@[i].0@, candidates@[i].1@) == selection@
                && candidates@[i].0@ == id@,
            Err(e) => (e matches Error::InvalidParams(m) && m@ == "invalid selection"@)
                && forall|i: int| 0 <= i < candidates@.len() ==> candidate_label(candidates@[i].0@, candidates@[i].1@) != selection@,
        },
{
    let labels = candidate_labels(candidates);
    let mut i: usize = 0;
    while i < candidates.len()
        invariant
            i <= candidates.len(),
            labels@.len() == candidates@.len(),
            forall|j: int| 0 <= j < labels@.len() ==> (#[trigger] labels@[j])@ == candidate_label(candidates@[j].0@, candidates@[j].1@),
            forall|j: int| 0 <= j < i ==> candidate_label(candidates@[j].0@, candidates@[j].1@) != selection@,
        decreases candidates.len() - i,
    {
        if text::str_eq(labels[i].as_str(), selection) {
            return Ok(candidates[i].0.clone());
        }
        i = i + 1;
    }
    Err(Error::invalid("invalid selection"))
}

/// The names of candidates joined by `, `.
pub open spec fn joined_names(cs: Seq<(Seq<char>, Seq<char>)>) -> Seq<char>
    decreases cs.len(),
{
    if cs.len() == 0 {
        Seq::empty()
    } else if cs.len() == 1 {
        cs[0].1
    } else {
        joined_names(cs.drop_last()) + ", "@ + cs.last().1
    }
}

/// The message refusing an ambiguous name: the input and the candidates' names.
pub open spec fn ambiguity_message(input: Seq<char>, cs: Seq<(Seq<char>, Seq<char>)>) -> Seq<char> {
    "ambiguous mailbox \""@ + input + "\", candidates: "@ + joined_names(cs)
}

/// The refusal of an ambiguous name outside interactive use.
pub fn ambiguity_error(candidates: &Vec<(String, String)>, input: &str) -> (r: Error)
    ensures
        r matches Error::InvalidParams(m) && m@ == ambiguity_message(input@, pair_texts(candidates@)),
{
    let ghost cs = pair_texts(candidates@);
    let mut names = String::new();
    let mut i: usize = 0;
    assert(cs.take(0) =~= Seq::<(Seq<char>, Seq<char>)>::empty());
    while i < candidates.len()
        invariant
            i <= candidates.len(),
            cs == pair_texts(candidates@),
            names@ == joined_names(cs.take(i as int)),
        decreases candidates.len() - i,
    {
        assert(cs.take(i as int + 1).drop_last() =~= cs.take(i as int));
        assert(cs.take(i as int + 1).last().1 == candidates@[i as int].1@);
        if i == 0 {
            names = candidates[i].1.clone();
        } else {
            names = text::concat3(names.as_str(), ", ", candidates[i].1.as_str());
        }
        i = i + 1;
    }
    assert(cs.take(candidates@.len() as int) =~= cs);
    let a = text::concat3("ambiguous mailbox \"", input, "\", candidates: ");
    Error::InvalidParams(text::concat(a.as_str(), names.as_str()))
}

/// How a mailbox name resolved.
#[derive(Debug)]
pub enum Resolution {
    /// One mailbox: its id.
    Found(String),
    /// Several candidates (id, name) to choose among.
    Choose(Vec<(String, String)>),
}

/// The resolution of `input` (lower case as `lower`) against a mailbox list: a role alias
/// that finds a mailbox wins; else the name candidates decide.
pub open spec fn resolution_of(ms: Seq<Jv>, input: Seq<char>, lower: Seq<char>) -> Result<Seq<char>, Seq<(Seq<char>, Seq<char>)>> {
    match alias_role(lower) {
        Some(role) if by_role(ms, role) is Some => Ok(by_role(ms, role)->0),
        _ => if name_candidates(ms, lower).len() == 1 {
            Ok(name_candidates(ms, lower)[0].0)
        } else {
            Err(name_candidates(ms, lower))
        },
    }
}

/// What resolving `input` against the mailboxes `ms` gives: the mailbox found, or the
/// error `no mailbox matching: {input}` when there is no candidate. Several candidates
/// are handed back to choose among when the session is `interactive`, and refused
/// with their names (see `ambiguity_message`) when it is not.
pub open spec fn resolve_outcome(ms: Seq<Jv>, input: Seq<char>, interactive: bool, r: Result<Resolution, Error>) -> bool {
    match resolution_of(ms, input, text::lowercase(input)) {
        Ok(id) => r matches Ok(Resolution::Found(s)) && s@ == id,
        Err(cs) => if cs.len() == 0 {
            r matches Err(Error::InvalidParams(m)) && m@ == "no mailbox matching: "@ + input
        } else if interactive {
            r matches Ok(Resolution::Choose(v)) && pair_texts(v@) == cs
        } else {
            r matches Err(Error::InvalidParams(m)) && m@ == ambiguity_message(input, cs)
        },
    }
}

/// Resolve `input` against a mailbox list (see `resolve_outcome`).
pub fn resolve_in(mailboxes: &[JsonValue], input: &str, interactive: bool) -> (r: Result<Resolution, Error>)
    ensures
        resolve_outcome(views(mailboxes@), input@, interactive, r),
{
    let lower = text::to_lowercase(input);
    if let Some(role) = role_for_alias(lower.as_str()) {
        if let Some(id) = find_by_role(mailboxes, role) {
            return Ok(Resolution::Found(id));
        }
    }
    let candidates = match_by_name(mailboxes, lower.as_str());
    if candidates.len() == 0 {
        return Err(Error::InvalidParams(text::concat("no mailbox matching: ", input)));
    }
    if candidates.len() == 1 {
        let mut c = candidates;
        let (id, _) = c.remove(0);
        return Ok(Resolution::Found(id));
    }
    if !interactive {
        return Err(ambiguity_error(&candidates, input));
    }
    Ok(Resolution::Choose(candidates))
}

/// Resolve a mailbox the user names to its id: fetch the mailbox list and resolve the
/// name in it (see `resolve_in`), choosing among several candidates only in human
/// (interactive) output. An empty name is refused.
pub fn resolve_mailbox<T: HttpTransport>(input: &str, ctx: &Context, io: &Io, t: &mut Exchange<T>) -> (r: Result<Resolution, Error>)
    ensures
        input@.len() == 0 ==> (r matches Err(Error::InvalidParams(m)) && m@ == "mailbox is required"@
            && final(t).log() == old(t).log()),
        input@.len() > 0 ==> single_sent(ctx.jmap, old(t).log(), final(t).log(), "urn:ietf:params:jmap:mail"@,
            "Mailbox/get"@, Jv::Obj(map!["accountId"@ => Jv::Str(ctx.account_id@)])),
        input@.len() > 0 ==> match single_ok("Mailbox/get"@, last_reply(final(t).log())) {
            Some(j) => if get_ok(j) { resolve_outcome(get_list(j->Obj_0), input@, io.mode_view() == OutputMode::Human, r) } else { r matches Err(e) && e is Json },
            None => (r matches Err(e) && single_failed("Mailbox/get"@, last_reply(final(t).log()), e)),
        },
{
    if input.is_empty() {
        return Err(Error::invalid("mailbox is required"));
    }
    let action = ListMailboxes { role: String::new() };
    let value = match action.run(ctx, t) {
        Ok(v) => v,
        Err(e) => return Err(e),
    };
    match value.as_array() {
        Some(ms) => {
            assert(views(ms@) =~= value@->Arr_0);
            let interactive = match io.mode() {
                OutputMode::Human => true,
                _ => false,
            };
            resolve_in(ms.as_slice(), input, interactive)
        },
        None => Err(Error::invalid("failed to fetch mailbox list")),
    }
}


/// Every entry `tier_entries` keeps matches at that tier, and it keeps the entries of
/// `es` that do, so it is not empty when one does.
proof fn lemma_tier_entries(es: Seq<(Seq<char>, Seq<char>)>, input: Seq<char>, tier: nat)
    ensures
        forall|j: int| 0 <= j < tier_entries(es, input, tier).len()
            ==> tier_match(#[trigger] tier_entries(es, input, tier)[j].1, input, tier),
        (exists|i: int| 0 <= i < es.len() && tier_match(#[trigger] es[i].1, input, tier))
            ==> tier_entries(es, input, tier).len() > 0,
    decreases es.len(),
{
    if es.len() > 0 {
        let init = es.drop_last();
        lemma_tier_entries(init, input, tier);
        if exists|i: int| 0 <= i < es.len() && tier_match(#[trigger] es[i].1, input, tier) {
            let i = choose|i: int| 0 <= i < es.len() && tier_match(#[trigger] es[i].1, input, tier);
            if i < es.len() - 1 {
                assert(init[i] == es[i]);
            }
        }
    }
}

/// A name that matches exactly, or by prefix, also contains the input.
proof fn lemma_match_contains(name: Seq<char>, input: Seq<char>, tier: nat)
    requires
        tier_match(name, input, tier),
    ensures
        text::has_infix(text::lowercase(name), input),
{
    let n = text::lowercase(name);
    if tier == 0 {
        assert(n.subrange(0, input.len() as int) =~= input);
        assert(text::occurs_at(n, input, 0));
    } else if tier == 1 {
        assert(text::occurs_at(n, input, 0));
    }
}

/// Exact beats prefix beats substring: when some mailbox's name is the input exactly
/// (ignoring case), the candidates are exactly-named mailboxes and there is at least one;
/// when none is but some name starts with the input, every candidate's name does.
pub proof fn law_exact_match_wins(ms: Seq<Jv>, input: Seq<char>)
    ensures
        (exists|i: int| 0 <= i < named_entries(ms).len()
            && text::lowercase(#[trigger] named_entries(ms)[i].1) == input) ==> {
            &&& name_candidates(ms, input).len() > 0
            &&& forall|j: int| 0 <= j < name_candidates(ms, input).len()
                ==> text::lowercase(#[trigger] name_candidates(ms, input)[j].1) == input
        },
        (forall|i: int| 0 <= i < named_entries(ms).len()
            ==> text::lowercase(#[trigger] named_entries(ms)[i].1) != input)
            && (exists|i: int| 0 <= i < named_entries(ms).len()
                && text::has_prefix(text::lowercase(#[trigger] named_entries(ms)[i].1), input)) ==> {
            &&& name_candidates(ms, input).len() > 0
            &&& forall|j: int| 0 <= j < name_candidates(ms, input).len()
                ==> text::has_prefix(text::lowercase(#[trigger] name_candidates(ms, input)[j].1), input)
        },
{
    let es = named_entries(ms);
    lemma_tier_entries(es, input, 0);
    lemma_tier_entries(es, input, 1);
    lemma_tier_entries(es, input, 2);
    if exists|i: int| 0 <= i < es.len() && text::lowercase(#[trigger] es[i].1) == input {
        let i = choose|i: int| 0 <= i < es.len() && text::lowercase(#[trigger] es[i].1) == input;
        assert(tier_match(es[i].1, input, 0));
    }
    if (forall|i: int| 0 <= i < es.len() ==> text::lowercase(#[trigger] es[i].1) != input)
        && (exists|i: int| 0 <= i < es.len() && text::has_prefix(text::lowercase(#[trigger] es[i].1), input)) {
        let i = choose|i: int| 0 <= i < es.len() && text::has_prefix(text::lowercase(#[trigger] es[i].1), input);
        assert(tier_match(es[i].1, input, 1));
        if tier_entries(es, input, 0).len() > 0 {
            let e = tier_entries(es, input, 0)[0];
            assert(tier_match(e.1, input, 0));
            lemma_tier_entries_member(es, input, 0, 0);
        }
    }
}

/// An entry `tier_entries` keeps is an entry of `es`.
proof fn lemma_tier_entries_member(es: Seq<(Seq<char>, Seq<char>)>, input: Seq<char>, tier: nat, j: int)
    requires
        0 <= j < tier_entries(es, input, tier).len(),
    ensures
        exists|i: int| 0 <= i < es.len() && es[i] == tier_entries(es, input, tier)[j],
    decreases es.len(),
{
    let init = es.drop_last();
    if tier_match(es.last().1, input, tier) && j == tier_entries(es, input, tier).len() - 1 {
        assert(es[es.len() - 1] == tier_entries(es, input, tier)[j]);
    } else {
        lemma_tier_entries_member(init, input, tier, j);
        let i = choose|i: int| 0 <= i < init.len() && init[i] == tier_entries(init, input, tier)[j];
        assert(es[i] == init[i]);
    }
}

/// Every candidate's name contains the input (ignoring case): candidates match exactly,
/// by prefix, or by substring.
pub proof fn law_candidates_contain_input(ms: Seq<Jv>, input: Seq<char>)
    ensures
        forall|j: int| 0 <= j < name_candidates(ms, input).len()
            ==> text::has_infix(text::lowercase(#[trigger] name_candidates(ms, input)[j].1), input),
{
    let es = named_entries(ms);
    lemma_tier_entries(es, input, 0);
    lemma_tier_entries(es, input, 1);
    lemma_tier_entries(es, input, 2);
    let cs = name_candidates(ms, input);
    let tier: nat = if tier_entries(es, input, 0).len() > 0 { 0 } else if tier_entries(es, input, 1).len() > 0 { 1 } else { 2 };
    assert(cs == tier_entries(es, input, tier));
    assert forall|j: int| 0 <= j < cs.len() implies text::has_infix(text::lowercase(#[trigger] cs[j].1), input) by {
        lemma_match_contains(cs[j].1, input, tier);
    }
}

} // verus!
