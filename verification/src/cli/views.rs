//! The tables and lines the command line shows for mailboxes, identities, masked emails
//! and vacation settings.

use vstd::prelude::*;

use crate::actions::str_member_of;
use crate::cli::emails::{pad, padded};
use crate::error::Error;
use crate::json::{as_u64_spec, member, JsonValue, Jv};
use crate::text;

verus! {

/// `s` padded with spaces on the left to `width` characters.
pub open spec fn left_padded(s: Seq<char>, width: nat) -> Seq<char> {
    if s.len() >= width { s } else { Seq::new((width - s.len()) as nat, |i: int| ' ') + s }
}

/// Pad a string with spaces on the left to `width` characters.
pub fn pad_left(s: &str, width: usize) -> (r: String)
    ensures
        r@ == left_padded(s@, width as nat),
{
    let cs = text::chars_of(s);
    if cs.len() >= width {
        return text::own(s);
    }
    let n = width - cs.len();
    let mut out: Vec<char> = Vec::new();
    let mut i: usize = 0;
    while i < n
        invariant
            i <= n,
            out@ == Seq::new(i as nat, |k: int| ' '),
        decreases n - i,
    {
        out.push(' ');
        i = i + 1;
        assert(out@ =~= Seq::new(i as nat, |k: int| ' '));
    }
    let ghost spaces = out@;
    let mut j: usize = 0;
    while j < cs.len()
        invariant
            j <= cs@.len(),
            out@ == spaces + cs@.take(j as int),
        decreases cs.len() - j,
    {
        out.push(cs[j]);
        j = j + 1;
        assert(out@ =~= spaces + cs@.take(j as int));
    }
    assert(cs@.take(cs@.len() as int) =~= cs@);
    text::string_of(&out)
}

/// A string member of an object, or `dflt`.
pub open spec fn text_or(v: Jv, k: Seq<char>, dflt: Seq<char>) -> Seq<char> {
    match str_member_of(v, k) {
        Some(s) => s,
        None => dflt,
    }
}

/// A string member of an object, or `dflt` (see `text_or`).
fn member_or(v: &JsonValue, k: &str, dflt: &str) -> (r: String)
    ensures
        r@ == text_or(v@, k@, dflt@),
{
    match v.get(k) {
        Some(x) => match x.as_str() {
            Some(s) => text::own(s),
            None => text::own(dflt),
        },
        None => text::own(dflt),
    }
}

/// A count member of an object (a non-negative integer), or 0.
pub open spec fn count_of(v: Jv, k: Seq<char>) -> u64 {
    match member(v, k) {
        Some(x) => match as_u64_spec(x) { Some(n) => n, None => 0 },
        None => 0,
    }
}

fn count_member(v: &JsonValue, k: &str) -> (r: u64)
    ensures
        r == count_of(v@, k@),
{
    match v.get(k) {
        Some(x) => match x.as_u64() {
            Some(n) => n,
            None => 0,
        },
        None => 0,
    }
}

/// The header of the mailbox table.
pub open spec fn mailbox_header_text() -> Seq<char> {
    padded("ID"@, 40) + " "@ + padded("NAME"@, 20) + " "@ + padded("ROLE"@, 10) + " "@
        + left_padded("TOTAL"@, 6) + " "@ + left_padded("UNREAD"@, 6)
}

/// One row of the mailbox table: id, name, role, total and unread counts.
pub open spec fn mailbox_row_text(m: Jv) -> Seq<char> {
    padded(text_or(m, "id"@, "?"@), 40) + " "@ + padded(text_or(m, "name"@, "?"@), 20) + " "@
        + padded(text_or(m, "role"@, Seq::empty()), 10) + " "@
        + left_padded(text::decimal(count_of(m, "totalEmails"@) as nat), 6) + " "@
        + left_padded(text::decimal(count_of(m, "unreadEmails"@) as nat), 6)
}

/// The header of the mailbox table (see `mailbox_header_text`).
pub fn mailbox_header() -> (r: String)
    ensures
        r@ == mailbox_header_text(),
{
    mailbox_line("ID", "NAME", "ROLE", "TOTAL", "UNREAD")
}

fn mailbox_line(id: &str, name: &str, role: &str, total: &str, unread: &str) -> (r: String)
    ensures
        r@ == padded(id@, 40) + " "@ + padded(name@, 20) + " "@ + padded(role@, 10) + " "@
            + left_padded(total@, 6) + " "@ + left_padded(unread@, 6),
{
    let a = text::concat3(pad(id, 40).as_str(), " ", pad(name, 20).as_str());
    let b = text::concat3(a.as_str(), " ", pad(role, 10).as_str());
    let c = text::concat3(b.as_str(), " ", pad_left(total, 6).as_str());
    text::concat3(c.as_str(), " ", pad_left(unread, 6).as_str())
}

/// One row of the mailbox table (see `mailbox_row_text`).
pub fn mailbox_row(m: &JsonValue) -> (r: String)
    ensures
        r@ == mailbox_row_text(m@),
{
    let id = member_or(m, "id", "?");
    let name = member_or(m, "name", "?");
    proof { reveal_strlit(""); }
    let role = member_or(m, "role", "");
    let total = text::decimal_string(count_member(m, "totalEmails"));
    let unread = text::decimal_string(count_member(m, "unreadEmails"));
    mailbox_line(id.as_str(), name.as_str(), role.as_str(), total.as_str(), unread.as_str())
}

/// The header of the identity table.
pub open spec fn identity_header_text() -> Seq<char> {
    padded("ID"@, 40) + " "@ + padded("NAME"@, 24) + " "@ + "EMAIL"@
}

/// One row of the identity table: id, name and address.
pub open spec fn identity_row_text(i: Jv) -> Seq<char> {
    padded(text_or(i, "id"@, "?"@), 40) + " "@ + padded(text_or(i, "name"@, Seq::empty()), 24) + " "@
        + text_or(i, "email"@, Seq::empty())
}

fn identity_line(id: &str, name: &str, email: &str) -> (r: String)
    ensures
        r@ == padded(id@, 40) + " "@ + padded(name@, 24) + " "@ + email@,
{
    let a = text::concat3(pad(id, 40).as_str(), " ", pad(name, 24).as_str());
    text::concat3(a.as_str(), " ", email)
}

/// The header of the identity table (see `identity_header_text`).
pub fn identity_header() -> (r: String)
    ensures
        r@ == identity_header_text(),
{
    identity_line("ID", "NAME", "EMAIL")
}

/// One row of the identity table (see `identity_row_text`).
pub fn identity_row(i: &JsonValue) -> (r: String)
    ensures
        r@ == identity_row_text(i@),
{
    let id = member_or(i, "id", "?");
    proof { reveal_strlit(""); }
    let name = member_or(i, "name", "");
    let email = member_or(i, "email", "");
    identity_line(id.as_str(), name.as_str(), email.as_str())
}

/// The header of the masked email table.
pub open spec fn masked_email_header_text() -> Seq<char> {
    padded("ID"@, 40) + " "@ + padded("EMAIL"@, 32) + " "@ + padded("DOMAIN"@, 16) + " "@
        + padded("STATE"@, 10) + " "@ + "DESCRIPTION"@
}

/// One row of the masked email table: id, address, domain, state and description.
pub open spec fn masked_email_row_text(m: Jv) -> Seq<char> {
    padded(text_or(m, "id"@, "?"@), 40) + " "@ + padded(text_or(m, "email"@, Seq::empty()), 32) + " "@
        + padded(text_or(m, "forDomain"@, Seq::empty()), 16) + " "@
        + padded(text_or(m, "state"@, Seq::empty()), 10) + " "@ + text_or(m, "description"@, Seq::empty())
}

fn masked_email_line(id: &str, email: &str, domain: &str, state: &str, desc: &str) -> (r: String)
    ensures
        r@ == padded(id@, 40) + " "@ + padded(email@, 32) + " "@ + padded(domain@, 16) + " "@
            + padded(state@, 10) + " "@ + desc@,
{
    let a = text::concat3(pad(id, 40).as_str(), " ", pad(email, 32).as_str());
    let b = text::concat3(a.as_str(), " ", pad(domain, 16).as_str());
    let c = text::concat3(b.as_str(), " ", pad(state, 10).as_str());
    text::concat3(c.as_str(), " ", desc)
}

/// The header of the masked email table (see `masked_email_header_text`).
pub fn masked_email_header() -> (r: String)
    ensures
        r@ == masked_email_header_text(),
{
    masked_email_line("ID", "EMAIL", "DOMAIN", "STATE", "DESCRIPTION")
}

/// One row of the masked email table (see `masked_email_row_text`).
pub fn masked_email_row(m: &JsonValue) -> (r: String)
    ensures
        r@ == masked_email_row_text(m@),
{
    let id = member_or(m, "id", "?");
    proof { reveal_strlit(""); }
    let email = member_or(m, "email", "");
    let domain = member_or(m, "forDomain", "");
    let state = member_or(m, "state", "");
    let desc = member_or(m, "description", "");
    masked_email_line(id.as_str(), email.as_str(), domain.as_str(), state.as_str(), desc.as_str())
}

/// The rule under a table header: `width` box-drawing dashes.
pub fn rule(width: usize) -> (r: String)
    ensures
        r@ == Seq::new(width as nat, |i: int| '─'),
{
    let mut out: Vec<char> = Vec::new();
    let mut i: usize = 0;
    while i < width
        invariant
            i <= width,
            out@ == Seq::new(i as nat, |k: int| '─'),
        decreases width - i,
    {
        out.push('─');
        i = i + 1;
        assert(out@ =~= Seq::new(i as nat, |k: int| '─'));
    }
    text::string_of(&out)
}

/// The vacation fields shown, with their labels, in order.
pub open spec fn vacation_fields() -> Seq<(Seq<char>, Seq<char>)> {
    seq![("fromDate"@, "From"@), ("toDate"@, "To"@), ("subject"@, "Subject"@), ("textBody"@, "Text body"@)]
}

/// The labelled vacation details shown: each of `vacation_fields` whose member is a
/// non-empty string, in order.
pub open spec fn vacation_details_of(v: Jv, fields: Seq<(Seq<char>, Seq<char>)>) -> Seq<(Seq<char>, Seq<char>)>
    decreases fields.len(),
{
    if fields.len() == 0 {
        Seq::empty()
    } else {
        let rest = vacation_details_of(v, fields.drop_last());
        match str_member_of(v, fields.last().0) {
            Some(s) if s.len() > 0 => rest.push((fields.last().1, s)),
            _ => rest,
        }
    }
}

/// Whether vacation settings are enabled (`isEnabled`, false when absent).
pub open spec fn vacation_enabled(v: Jv) -> bool {
    match member(v, "isEnabled"@) {
        Some(Jv::Bool(b)) => b,
        _ => false,
    }
}

/// Whether the vacation auto-reply is on (see `vacation_enabled`).
pub fn vacation_is_enabled(v: &JsonValue) -> (r: bool)
    ensures
        r == vacation_enabled(v@),
{
    match v.get("isEnabled") {
        Some(x) => {
            proof { x.lemma_view(); }
            match x.as_bool() {
                Some(b) => b,
                None => false,
            }
        },
        None => false,
    }
}

/// The labelled vacation details to show (see `vacation_details_of`).
pub fn vacation_details(v: &JsonValue) -> (r: Vec<(String, String)>)
    ensures
        r@.map_values(|p: (String, String)| (p.0@, p.1@)) == vacation_details_of(v@, vacation_fields()),
{
    let keys = ["fromDate", "toDate", "subject", "textBody"];
    let labels = ["From", "To", "Subject", "Text body"];
    let ghost fields = vacation_fields();
    assert(fields.len() == 4);
    let mut out: Vec<(String, String)> = Vec::new();
    let mut i: usize = 0;
    while i < 4
        invariant
            i <= 4,
            fields == vacation_fields(),
            keys@.len() == 4 && labels@.len() == 4,
            forall|j: int| 0 <= j < 4 ==> keys@[j]@ == (#[trigger] fields[j]).0 && labels@[j]@ == fields[j].1,
            out@.map_values(|p: (String, String)| (p.0@, p.1@)) == vacation_details_of(v@, fields.take(i as int)),
        decreases 4 - i,
    {
        assert(fields.take(i as int + 1).drop_last() =~= fields.take(i as int));
        let k = keys[i];
        let value = match v.get(k) {
            Some(x) => x.as_str(),
            None => None,
        };
        match value {
            Some(s) => {
                if !s.is_empty() {
                    out.push((text::own(labels[i]), text::own(s)));
                }
            },
            None => {},
        }
        i = i + 1;
        assert(out@.map_values(|p: (String, String)| (p.0@, p.1@)) =~= vacation_details_of(v@, fields.take(i as int)));
    }
    assert(fields.take(4) =~= fields);
    out
}

/// The vacation state `vacation set` asks for: `--enabled` or `--disabled`, one of them
/// required.
pub fn vacation_choice(enabled: bool, disabled: bool) -> (r: Result<bool, Error>)
    ensures
        !enabled && !disabled ==> (r matches Err(Error::InvalidParams(m)) && m@ == "must specify --enabled or --disabled"@),
        enabled || disabled ==> r == Ok::<bool, Error>(enabled),
{
    if !enabled && !disabled {
        return Err(Error::invalid("must specify --enabled or --disabled"));
    }
    Ok(enabled)
}

} // verus!
