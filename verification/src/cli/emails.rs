//! How the command line shows emails: the list table, one email, and action results.

use vstd::prelude::*;

use crate::actions::str_member_of;
use crate::json::{as_u64_spec, member, views, JsonValue, Jv};
use crate::text;

verus! {

/// `s` cut to at most `max` characters, the last of them `…` when cut.
pub open spec fn truncated(s: Seq<char>, max: nat) -> Seq<char> {
    if s.len() <= max {
        s
    } else {
        s.take(if max >= 1 { max - 1 } else { 0 }) + seq!['…']
    }
}

/// Truncate a string to `max` characters, ending it with `…` when cut.
pub fn truncate(s: &str, max: usize) -> (r: String)
    ensures
        r@ == truncated(s@, max as nat),
        r@.len() <= s@.len(),
        r@.len() <= (if max >= 1 { max as nat } else { 1 }),
{
    let cs = text::chars_of(s);
    if cs.len() <= max {
        return text::own(s);
    }
    let keep = if max >= 1 { max - 1 } else { 0 };
    let mut out: Vec<char> = Vec::new();
    let mut i: usize = 0;
    while i < keep
        invariant
            i <= keep,
            keep < cs@.len(),
            out@ == cs@.take(i as int),
        decreases keep - i,
    {
        out.push(cs[i]);
        i = i + 1;
        assert(out@ =~= cs@.take(i as int));
    }
    out.push('…');
    text::string_of(&out)
}

/// A date-time shown as `YYYY-MM-DD HH:MM`: `T` made a space, cut to 16 characters.
pub open spec fn short_date(s: Seq<char>) -> Seq<char> {
    let t = text::replace_all(s, "T"@, " "@);
    if t.len() <= 16 { t } else { t.take(16) }
}

/// Truncate a date-time string for display (see `short_date`).
pub fn truncate_date(s: &str) -> (r: String)
    ensures
        r@ == short_date(s@),
{
    proof { reveal_strlit("T"); }
    let t = text::replace(s, "T", " ");
    let cs = text::chars_of(t.as_str());
    if cs.len() <= 16 {
        return t;
    }
    let mut out: Vec<char> = Vec::new();
    let mut i: usize = 0;
    while i < 16
        invariant
            i <= 16,
            16 < cs@.len(),
            out@ == cs@.take(i as int),
        decreases 16 - i,
    {
        out.push(cs[i]);
        i = i + 1;
        assert(out@ =~= cs@.take(i as int));
    }
    text::string_of(&out)
}

/// An address shown as `name <email>`, or just the email when there is no name.
pub open spec fn address_text(addr: Jv) -> Seq<char> {
    let name = match str_member_of(addr, "name"@) { Some(n) => n, None => Seq::empty() };
    let email = match str_member_of(addr, "email"@) { Some(e) => e, None => Seq::empty() };
    if name.len() == 0 { email } else { name + " <"@ + email + ">"@ }
}

/// A string member, or empty.
fn member_text(v: &JsonValue, k: &str) -> (r: String)
    ensures
        r@ == match str_member_of(v@, k@) { Some(s) => s, None => Seq::empty() },
{
    match v.get(k) {
        Some(x) => match x.as_str() {
            Some(s) => text::own(s),
            None => String::new(),
        },
        None => String::new(),
    }
}

/// Format a JMAP address object for display (see `address_text`).
pub fn format_address(addr: &JsonValue) -> (r: String)
    ensures
        r@ == address_text(addr@),
{
    let name = member_text(addr, "name");
    let email = member_text(addr, "email");
    if name.as_str().is_empty() {
        email
    } else {
        let a = text::concat3(name.as_str(), " <", email.as_str());
        text::concat(a.as_str(), ">")
    }
}

/// `s` padded with spaces on the right to `width` characters.
pub open spec fn padded(s: Seq<char>, width: nat) -> Seq<char> {
    if s.len() >= width { s } else { s + Seq::new((width - s.len()) as nat, |i: int| ' ') }
}

/// Pad a string with spaces on the right to `width` characters.
pub fn pad(s: &str, width: usize) -> (r: String)
    ensures
        r@ == padded(s@, width as nat),
{
    let cs = text::chars_of(s);
    if cs.len() >= width {
        return text::own(s);
    }
    let mut out = cs;
    let n = width - out.len();
    let ghost base = s@;
    let mut i: usize = 0;
    while i < n
        invariant
            i <= n,
            out@ == base + Seq::new(i as nat, |k: int| ' '),
        decreases n - i,
    {
        out.push(' ');
        i = i + 1;
        assert(out@ =~= base + Seq::new(i as nat, |k: int| ' '));
    }
    text::string_of(&out)
}

/// The sender of an email: its first `from` address, shown (empty when none).
pub open spec fn sender_text(e: Jv) -> Seq<char> {
    match member(e, "from"@) {
        Some(Jv::Arr(a)) => if a.len() > 0 { address_text(a[0]) } else { Seq::empty() },
        _ => Seq::empty(),
    }
}

/// The date of an email: `date`, else `receivedAt`, when it is a string.
pub open spec fn date_of(e: Jv) -> Option<Seq<char>> {
    match member(e, "date"@) {
        Some(d) => match d { Jv::Str(s) => Some(s), _ => None },
        None => str_member_of(e, "receivedAt"@),
    }
}

/// One row of the email table: id, date, sender and subject in their columns.
pub open spec fn email_row_text(e: Jv) -> Seq<char> {
    let id = match str_member_of(e, "id"@) { Some(s) => s, None => "?"@ };
    let date = match date_of(e) { Some(d) => short_date(d), None => Seq::empty() };
    let subject = match str_member_of(e, "subject"@) { Some(s) => s, None => "(no subject)"@ };
    padded(truncated(id, 13), 14) + " "@ + padded(date, 20) + " "@ + padded(truncated(sender_text(e), 23), 24) + " "@
        + truncated(subject, 40)
}

/// The sender of an email, shown.
fn sender_of(e: &JsonValue) -> (r: String)
    ensures
        r@ == sender_text(e@),
{
    match e.get("from") {
        Some(f) => {
            proof { f.lemma_view(); }
            match f.as_array() {
                Some(a) => if a.len() > 0 { format_address(&a[0]) } else { String::new() },
                None => String::new(),
            }
        },
        None => String::new(),
    }
}

/// The date of an email (see `date_of`).
fn date_text(e: &JsonValue) -> (r: Option<String>)
    ensures
        match date_of(e@) {
            Some(d) => r matches Some(s) && s@ == d,
            None => r is None,
        },
{
    match e.get("date") {
        Some(d) => match d.as_str() {
            Some(s) => Some(text::own(s)),
            None => None,
        },
        None => match e.get("receivedAt") {
            Some(d) => match d.as_str() {
                Some(s) => Some(text::own(s)),
                None => None,
            },
            None => None,
        },
    }
}

/// One row of the email table (see `email_row_text`).
pub fn email_row(e: &JsonValue) -> (r: String)
    ensures
        r@ == email_row_text(e@),
{
    let id = match e.get("id") {
        Some(x) => match x.as_str() { Some(s) => text::own(s), None => text::own("?") },
        None => text::own("?"),
    };
    let date = match date_text(e) {
        Some(d) => truncate_date(d.as_str()),
        None => String::new(),
    };
    let from = sender_of(e);
    let subject = match e.get("subject") {
        Some(x) => match x.as_str() { Some(s) => text::own(s), None => text::own("(no subject)") },
        None => text::own("(no subject)"),
    };
    let c1 = pad(truncate(id.as_str(), 13).as_str(), 14);
    let c2 = pad(date.as_str(), 20);
    let c3 = pad(truncate(from.as_str(), 23).as_str(), 24);
    let c4 = truncate(subject.as_str(), 40);
    let a = text::concat3(c1.as_str(), " ", c2.as_str());
    let b = text::concat3(a.as_str(), " ", c3.as_str());
    text::concat3(b.as_str(), " ", c4.as_str())
}

/// The rows of the email table, one per email.
pub fn email_rows(emails: &Vec<JsonValue>) -> (r: Vec<String>)
    ensures
        r@.len() == emails@.len(),
        forall|i: int| 0 <= i < r@.len() ==> (#[trigger] r@[i])@ == email_row_text(emails@[i]@),
{
    let mut out: Vec<String> = Vec::new();
    let mut i: usize = 0;
    while i < emails.len()
        invariant
            i <= emails.len(),
            out@.len() == i,
            forall|j: int| 0 <= j < i ==> (#[trigger] out@[j])@ == email_row_text(emails@[j]@),
        decreases emails.len() - i,
    {
        out.push(email_row(&emails[i]));
        i = i + 1;
    }
    out
}

/// The count an action result reports: `moved`, else `deleted`, else `updated` (when it
/// is a non-negative integer), else 0.
pub open spec fn action_count(v: Jv) -> u64 {
    let pick = match member(v, "moved"@) {
        Some(x) => Some(x),
        None => match member(v, "deleted"@) {
            Some(x) => Some(x),
            None => member(v, "updated"@),
        },
    };
    match pick {
        Some(x) => match as_u64_spec(x) { Some(n) => n, None => 0 },
        None => 0,
    }
}

/// The line that reports an action result: `{label}: {count} email(s)`.
pub fn action_result_line(value: &JsonValue, label: &str) -> (r: String)
    ensures
        r@ == label@ + ": "@ + text::decimal(action_count(value@) as nat) + " email(s)"@,
{
    let pick = match value.get("moved") {
        Some(x) => Some(x),
        None => match value.get("deleted") {
            Some(x) => Some(x),
            None => value.get("updated"),
        },
    };
    let count: u64 = match pick {
        Some(x) => match x.as_u64() { Some(n) => n, None => 0 },
        None => 0,
    };
    let n = text::decimal_string(count);
    let a = text::concat3(label, ": ", n.as_str());
    text::concat(a.as_str(), " email(s)")
}

/// The body of an email as shown: `textBody`, else `htmlBody`, when a string.
pub open spec fn shown_body(e: Jv) -> Option<Seq<char>> {
    match str_member_of(e, "textBody"@) {
        Some(b) => Some(b),
        None => str_member_of(e, "htmlBody"@),
    }
}

/// What the view of one email shows: its subject, sender, date and body.
#[derive(Debug)]
pub struct EmailBodyView {
    pub subject: String,
    pub from: String,
    pub date: String,
    pub body: Option<String>,
}

/// A string member of an email, if it is one.
fn str_field(e: &JsonValue, k: &str) -> (r: Option<String>)
    ensures
        match str_member_of(e@, k@) {
            Some(s) => r matches Some(x) && x@ == s,
            None => r is None,
        },
{
    match e.get(k) {
        Some(x) => match x.as_str() {
            Some(s) => Some(text::own(s)),
            None => None,
        },
        None => None,
    }
}

/// The view of one email: the subject (else "(no subject)"), the first sender, the date
/// (`date`, else `receivedAt`; else empty) and the body (see `shown_body`).
pub fn email_body_view(e: &JsonValue) -> (r: EmailBodyView)
    ensures
        r.subject@ == (match str_member_of(e@, "subject"@) { Some(s) => s, None => "(no subject)"@ }),
        r.from@ == sender_text(e@),
        r.date@ == (match date_of(e@) { Some(d) => d, None => Seq::<char>::empty() }),
        match shown_body(e@) {
            Some(b) => r.body matches Some(x) && x@ == b,
            None => r.body is None,
        },
{
    let subject = match str_field(e, "subject") {
        Some(s) => s,
        None => text::own("(no subject)"),
    };
    let date = match date_text(e) {
        Some(d) => d,
        None => String::new(),
    };
    let body = match str_field(e, "textBody") {
        Some(b) => Some(b),
        None => str_field(e, "htmlBody"),
    };
    EmailBodyView { subject, from: sender_of(e), date, body }
}

} // verus!
