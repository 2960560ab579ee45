//! MCP method handlers: `initialize`, `tools/list`, and `tools/call`, which reads a tool's
//! arguments, runs the tool, and shapes its reply.

use vstd::prelude::*;

use crate::actions::contact::{self, text_or_empty, ContactEmail, ContactPatch, ContactPhone};
use crate::actions::email::{self, flag_keyword, format_flag};
use crate::actions::{identity, mailbox, masked_email, tool_definitions, vacation, Action, Context};
use crate::error::{error_text, Error};
use crate::jmap::client::{Exchange, Exchanged, HttpTransport};
use crate::json::{as_u64_spec, bool_at, bool_at_spec, member, texts, views, JsonValue, Jv};
use crate::json_text::{pretty_json, pretty_json_text};
use crate::mcp::types::{
    reply_json, tool_result_json, InitializeResult, ServerCapabilities, ServerInfo, ToolCallParams, ToolCallResult,
    ToolsCapability, ToolsListResult,
};
use crate::present::{self, state_named, FieldChange, MaskedEmailState};
use crate::text;

verus! {

// ---------------------------------------------------------------------------------------
// Reading tool arguments

/// A string argument (empty when absent or not a string).
pub fn str_param(args: &JsonValue, key: &str) -> (r: String)
    ensures
        r@ == text_or_empty(args@, key@),
{
    match args.get(key) {
        Some(v) => match v.as_str() {
            Some(s) => text::own(s),
            None => String::new(),
        },
        None => String::new(),
    }
}

/// A non-negative integer argument, or 0.
pub open spec fn u64_or_zero(args: Jv, key: Seq<char>) -> u64 {
    match member(args, key) {
        Some(v) => match as_u64_spec(v) {
            Some(n) => n,
            None => 0,
        },
        None => 0,
    }
}

/// An integer argument as a `u32` (0 when absent or not a non-negative integer; larger
/// values keep their low 32 bits).
pub fn u32_param(args: &JsonValue, key: &str) -> (r: u32)
    ensures
        r == (u64_or_zero(args@, key@) as u32),
{
    let n: u64 = match args.get(key) {
        Some(v) => match v.as_u64() {
            Some(n) => n,
            None => 0,
        },
        None => 0,
    };
    #[verifier::truncate] (n as u32)
}

/// A boolean argument (false when absent or not a boolean).
pub fn bool_param(args: &JsonValue, key: &str) -> (r: bool)
    ensures
        r == (member(args@, key@) == Some(Jv::Bool(true))),
{
    match args.get(key) {
        Some(v) => {
            proof { v.lemma_view(); }
            match v.as_bool() {
                Some(b) => b,
                None => false,
            }
        },
        None => false,
    }
}

/// The elements of an array argument (none when absent or not an array).
pub open spec fn array_arg(args: Jv, key: Seq<char>) -> Seq<Jv> {
    match member(args, key) {
        Some(Jv::Arr(a)) => a,
        _ => Seq::empty(),
    }
}

/// The elements of an array argument (none when absent or not an array).
pub fn json_array_param(args: &JsonValue, key: &str) -> (r: Vec<JsonValue>)
    ensures
        views(r@) == array_arg(args@, key@),
{
    let mut out: Vec<JsonValue> = Vec::new();
    if let Some(v) = args.get(key) {
        if let Some(a) = v.as_array() {
            let mut i: usize = 0;
            while i < a.len()
                invariant
                    i <= a.len(),
                    out@.len() == i,
                    forall|j: int| 0 <= j < i ==> (#[trigger] out@[j])@ == a@[j]@,
                decreases a.len() - i,
            {
                out.push(a[i].deep_clone());
                i = i + 1;
            }
            assert(views(out@) =~= v@->Arr_0);
            return out;
        }
    }
    assert(views(out@) =~= Seq::<Jv>::empty());
    out
}

/// The strings among `a`, in order.
pub open spec fn strings_of(a: Seq<Jv>) -> Seq<Seq<char>>
    decreases a.len(),
{
    if a.len() == 0 {
        Seq::empty()
    } else {
        match a.last() {
            Jv::Str(s) => strings_of(a.drop_last()).push(s),
            _ => strings_of(a.drop_last()),
        }
    }
}

/// The strings of an array argument, other elements skipped.
pub fn str_array_param(args: &JsonValue, key: &str) -> (r: Vec<String>)
    ensures
        texts(r@) == strings_of(array_arg(args@, key@)),
{
    let items = json_array_param(args, key);
    let ghost a = views(items@);
    let mut out: Vec<String> = Vec::new();
    let mut i: usize = 0;
    assert(a.take(0) =~= Seq::<Jv>::empty());
    assert(texts(out@) =~= Seq::<Seq<char>>::empty());
    while i < items.len()
        invariant
            i <= items.len(),
            a == views(items@),
            texts(out@) == strings_of(a.take(i as int)),
        decreases items.len() - i,
    {
        assert(a.take(i as int + 1).drop_last() =~= a.take(i as int));
        assert(a.take(i as int + 1).last() == items@[i as int]@);
        proof { items@[i as int].lemma_view(); }
        if let Some(s) = items[i].as_str() {
            let ghost before = texts(out@);
            out.push(text::own(s));
            assert(texts(out@) =~= before.push(s@));
        }
        i = i + 1;
    }
    assert(a.take(items@.len() as int) =~= a);
    out
}

// ---------------------------------------------------------------------------------------
// Dispatch

/// Whether the arguments of `search_emails` give at least one criterion.
pub open spec fn search_criterion(args: Jv) -> bool {
    text_or_empty(args, "keyword"@).len() > 0 || text_or_empty(args, "from"@).len() > 0
        || text_or_empty(args, "to"@).len() > 0 || text_or_empty(args, "subject"@).len() > 0
        || text_or_empty(args, "mailboxId"@).len() > 0 || bool_at_spec(args, "/hasAttachment"@) is Some
        || text_or_empty(args, "after"@).len() > 0 || text_or_empty(args, "before"@).len() > 0
}

/// The refusal of `manage_mailbox` arguments, if any.
pub open spec fn manage_refusal(action: Seq<char>, name: Seq<char>, mailbox_id: Seq<char>) -> Option<Seq<char>> {
    if action == "create"@ {
        if name.len() == 0 { Some("name is required for create"@) } else { None }
    } else if action == "rename"@ {
        if mailbox_id.len() == 0 {
            Some("mailboxId is required for rename"@)
        } else if name.len() == 0 {
            Some("name is required for rename"@)
        } else {
            None
        }
    } else if action == "delete"@ {
        if mailbox_id.len() == 0 { Some("mailboxId is required for delete"@) } else { None }
    } else if action.len() == 0 {
        Some("action is required"@)
    } else {
        Some("action must be create, rename, or delete"@)
    }
}

/// The refusal a tool call meets before any request is made: from its name and arguments
/// alone, the message of the `InvalidParams` error it ends with, if any.
pub open spec fn dispatch_refusal(name: Seq<char>, args: Jv) -> Option<Seq<char>> {
    let s = |k: Seq<char>| text_or_empty(args, k);
    if name == "list_mailboxes"@ {
        None
    } else if name == "manage_mailbox"@ {
        manage_refusal(s("action"@), s("name"@), s("mailboxId"@))
    } else if name == "get_emails"@ {
        if s("mailboxId"@).len() == 0 && s("mailboxName"@).len() == 0 { Some("must provide mailboxId or mailboxName"@) } else { None }
    } else if name == "search_emails"@ {
        if !search_criterion(args) { Some("at least one search filter required"@) } else { None }
    } else if name == "get_email_body"@ {
        if s("emailId"@).len() == 0 {
            Some("emailId is required"@)
        } else if format_flag(s("format"@)) is None {
            Some("format must be text, html, or both"@)
        } else {
            None
        }
    } else if name == "send_email"@ {
        if strings_of(array_arg(args, "to"@)).len() == 0 {
            Some("to is required"@)
        } else if s("subject"@).len() == 0 {
            Some("subject is required"@)
        } else if s("body"@).len() == 0 {
            Some("body is required"@)
        } else {
            None
        }
    } else if name == "move_email"@ {
        if strings_of(array_arg(args, "emailIds"@)).len() == 0 {
            Some("emailIds is required"@)
        } else if s("mailboxId"@).len() == 0 {
            Some("mailboxId is required"@)
        } else {
            None
        }
    } else if name == "delete_email"@ {
        if strings_of(array_arg(args, "emailIds"@)).len() == 0 { Some("emailIds is required"@) } else { None }
    } else if name == "flag_email"@ {
        if member(args, "value"@) is None {
            Some("value is required"@)
        } else if strings_of(array_arg(args, "emailIds"@)).len() == 0 {
            Some("emailIds is required"@)
        } else if s("flag"@).len() == 0 {
            Some("flag is required"@)
        } else if flag_keyword(s("flag"@)) is None {
            Some("invalid flag: "@ + s("flag"@))
        } else {
            None
        }
    } else if name == "get_vacation_response"@ {
        None
    } else if name == "set_vacation_response"@ {
        if bool_at_spec(args, "/isEnabled"@) is None { Some("isEnabled is required"@) } else { None }
    } else if name == "list_identities"@ {
        None
    } else if name == "list_masked_emails"@ {
        if s("state"@).len() > 0 && state_named(s("state"@)) is None {
            Some("state must be pending, enabled, disabled, or deleted"@)
        } else {
            None
        }
    } else if name == "create_masked_email"@ {
        None
    } else if name == "update_masked_email"@ {
        if state_named(s("state"@)) is None || state_named(s("state"@)) == Some(MaskedEmailState::Pending) {
            Some("state must be enabled, disabled, or deleted"@)
        } else if s("id"@).len() == 0 {
            Some("id is required"@)
        } else {
            None
        }
    } else if name == "list_address_books"@ {
        None
    } else if name == "get_contacts"@ {
        None
    } else if name == "search_contacts"@ {
        if s("query"@).len() == 0 { Some("query is required"@) } else { None }
    } else if name == "create_contact"@ {
        if s("name"@).len() == 0 { Some("name is required"@) } else { None }
    } else if name == "update_contact"@ {
        if s("contactId"@).len() == 0 {
            Some("contactId is required"@)
        } else if s("name"@).len() == 0 && member(args, "emails"@) is None && member(args, "phones"@) is None
            && member(args, "company"@) is None && member(args, "notes"@) is None {
            Some("at least one field to update is required"@)
        } else {
            None
        }
    } else if name == "delete_contact"@ {
        if s("contactId"@).len() == 0 { Some("contactId is required"@) } else { None }
    } else {
        Some("unknown tool: "@ + name)
    }
}

/// Whether `r` is the refusal `InvalidParams(msg)`.
pub open spec fn refused_with(r: Result<JsonValue, Error>, msg: Seq<char>) -> bool {
    r matches Err(Error::InvalidParams(m)) && m@ == msg
}

/// Whether `es` are the email entries read from `a`, one per element: its `type` label
/// and its `address`.
pub open spec fn emails_read(es: Seq<ContactEmail>, a: Seq<Jv>) -> bool {
    &&& es.len() == a.len()
    &&& forall|i: int| #![trigger es[i]] 0 <= i < a.len() ==> es[i].context_view()
        == contact::context_of_label(text_or_empty(a[i], "type"@)) && es[i].address_view() == text_or_empty(a[i], "address"@)
}

/// Whether `ps` are the phone entries read from `a`, one per element: its `type` label
/// and its `number`.
pub open spec fn phones_read(ps: Seq<ContactPhone>, a: Seq<Jv>) -> bool {
    &&& ps.len() == a.len()
    &&& forall|i: int| #![trigger ps[i]] 0 <= i < a.len() ==> ps[i].context_view()
        == contact::context_of_label(text_or_empty(a[i], "type"@)) && ps[i].number_view() == text_or_empty(a[i], "number"@)
}

/// Email entries read from each element of an array argument.
fn email_inputs(args: &JsonValue, key: &str) -> (r: Vec<ContactEmail>)
    ensures
        emails_read(r@, array_arg(args@, key@)),
{
    let items = json_array_param(args, key);
    let ghost a = views(items@);
    let mut out: Vec<ContactEmail> = Vec::new();
    let mut i: usize = 0;
    while i < items.len()
        invariant
            i <= items.len(),
            a == views(items@),
            out@.len() == i,
            forall|j: int| #![trigger out@[j]] 0 <= j < i ==> out@[j].context_view()
                == contact::context_of_label(text_or_empty(a[j], "type"@)) && out@[j].address_view() == text_or_empty(a[j], "address"@),
        decreases items.len() - i,
    {
        out.push(ContactEmail::from_input(&items[i]));
        i = i + 1;
    }
    out
}

/// Phone entries read from each element of an array argument.
fn phone_inputs(args: &JsonValue, key: &str) -> (r: Vec<ContactPhone>)
    ensures
        phones_read(r@, array_arg(args@, key@)),
{
    let items = json_array_param(args, key);
    let ghost a = views(items@);
    let mut out: Vec<ContactPhone> = Vec::new();
    let mut i: usize = 0;
    while i < items.len()
        invariant
            i <= items.len(),
            a == views(items@),
            out@.len() == i,
            forall|j: int| #![trigger out@[j]] 0 <= j < i ==> out@[j].context_view()
                == contact::context_of_label(text_or_empty(a[j], "type"@)) && out@[j].number_view() == text_or_empty(a[j], "number"@),
        decreases items.len() - i,
    {
        out.push(ContactPhone::from_input(&items[i]));
        i = i + 1;
    }
    out
}

/// A tool call read from its name and arguments: the action it runs.
pub enum ToolRequest {
    ListMailboxes(mailbox::ListMailboxes),
    ManageMailbox(mailbox::ManageMailbox),
    GetEmails(email::GetEmails),
    SearchEmails(email::SearchEmails),
    GetEmailBody(email::GetEmailBody),
    SendEmail(email::SendEmail),
    MoveEmail(email::MoveEmail),
    DeleteEmail(email::DeleteEmail),
    FlagEmail(email::FlagEmail),
    GetVacationResponse,
    SetVacationResponse(vacation::SetVacationResponse),
    ListIdentities,
    ListMaskedEmails(masked_email::ListMaskedEmails),
    CreateMaskedEmail(masked_email::CreateMaskedEmail),
    UpdateMaskedEmail(masked_email::UpdateMaskedEmail),
    ListAddressBooks,
    GetContacts(contact::GetContacts),
    SearchContacts(contact::SearchContacts),
    CreateContact(contact::CreateContact),
    UpdateContact(contact::UpdateContact),
    DeleteContact(contact::DeleteContact),
}

/// Whether `r` is the refusal `InvalidParams(msg)`.
pub open spec fn request_refused(r: Result<ToolRequest, Error>, msg: Seq<char>) -> bool {
    r matches Err(Error::InvalidParams(m)) && m@ == msg
}

/// Whether `m` is the mailbox operation `action` names, with its name, mailbox and parent.
pub open spec fn manage_read(action: Seq<char>, name: Seq<char>, mailbox_id: Seq<char>, parent_id: Seq<char>, m: mailbox::ManageMailbox) -> bool {
    match m {
        mailbox::ManageMailbox::Create { name: n, parent_id: p } => action == "create"@ && n@ == name && p@ == parent_id,
        mailbox::ManageMailbox::Rename { mailbox_id: i, name: n } => action == "rename"@ && i@ == mailbox_id && n@ == name,
        mailbox::ManageMailbox::Delete { mailbox_id: i } => action == "delete"@ && i@ == mailbox_id,
    }
}

/// Whether `c` is the change a vacation argument asks for: a string sets it, null clears
/// it, anything else (or nothing) keeps it.
pub open spec fn change_read(args: Jv, key: Seq<char>, c: FieldChange) -> bool {
    match member(args, key) {
        Some(Jv::Str(t)) => c matches FieldChange::Value(x) && x@ == t,
        Some(Jv::Null) => c == FieldChange::Clear,
        _ => c == FieldChange::Keep,
    }
}

/// Whether `o` is an optional text argument of a contact update: present (as its text)
/// exactly when the argument is.
pub open spec fn present_text_read(args: Jv, key: Seq<char>, o: Option<String>) -> bool {
    if member(args, key) is Some { o matches Some(x) && x@ == text_or_empty(args, key) } else { o is None }
}

/// Whether `p` is the contact change the `update_contact` arguments ask for.
pub open spec fn patch_read(args: Jv, p: ContactPatch) -> bool {
    &&& (if text_or_empty(args, "name"@).len() == 0 { p.name is None } else {
            p.name matches Some(x) && x@ == text_or_empty(args, "name"@) })
    &&& (if member(args, "emails"@) is Some {
            p.emails matches Some(v) && emails_read(v@, array_arg(args, "emails"@)) } else { p.emails is None })
    &&& (if member(args, "phones"@) is Some {
            p.phones matches Some(v) && phones_read(v@, array_arg(args, "phones"@)) } else { p.phones is None })
    &&& present_text_read(args, "company"@, p.company)
    &&& present_text_read(args, "notes"@, p.notes)
}

/// What a tool call reads from its name and arguments: the action it runs, each field
/// read from the argument of the same name (a string, empty when absent; an integer as
/// `u32`, 0 when absent; a boolean, false unless `true`; the strings of an array), or the
/// refusal of arguments that cannot make one, or of an unknown tool.
pub open spec fn tool_read(name: Seq<char>, args: Jv, r: Result<ToolRequest, Error>) -> bool {
    let s = |k: Seq<char>| text_or_empty(args, k);
    let n = |k: Seq<char>| (u64_or_zero(args, k) as u32);
    let b = |k: Seq<char>| member(args, k) == Some(Jv::Bool(true));
    let l = |k: Seq<char>| strings_of(array_arg(args, k));
    if name == "list_mailboxes"@ {
        r matches Ok(ToolRequest::ListMailboxes(a)) && a.role@ == s("role"@)
    } else if name == "manage_mailbox"@ {
        match manage_refusal(s("action"@), s("name"@), s("mailboxId"@)) {
            Some(m) => request_refused(r, m),
            None => r matches Ok(ToolRequest::ManageMailbox(a))
                && manage_read(s("action"@), s("name"@), s("mailboxId"@), s("parentId"@), a),
        }
    } else if name == "get_emails"@ {
        r matches Ok(ToolRequest::GetEmails(a)) && a.mailbox_id@ == s("mailboxId"@)
            && a.mailbox_name@ == s("mailboxName"@) && a.limit == n("limit"@) && a.include_body == b("includeBody"@)
    } else if name == "search_emails"@ {
        r matches Ok(ToolRequest::SearchEmails(a)) && a.keyword@ == s("keyword"@) && a.from@ == s("from"@)
            && a.to@ == s("to"@) && a.subject@ == s("subject"@) && a.mailbox_id@ == s("mailboxId"@)
            && a.has_attachment == bool_at_spec(args, "/hasAttachment"@) && a.after@ == s("after"@)
            && a.before@ == s("before"@) && a.limit == n("limit"@) && a.include_body == b("includeBody"@)
    } else if name == "get_email_body"@ {
        r matches Ok(ToolRequest::GetEmailBody(a)) && a.email_id@ == s("emailId"@) && a.format@ == s("format"@)
    } else if name == "send_email"@ {
        r matches Ok(ToolRequest::SendEmail(a)) && texts(a.to@) == l("to"@) && a.subject@ == s("subject"@)
            && a.body@ == s("body"@) && texts(a.cc@) == l("cc"@) && texts(a.bcc@) == l("bcc"@)
            && a.is_html == b("isHtml"@) && a.in_reply_to@ == s("inReplyTo"@)
    } else if name == "move_email"@ {
        r matches Ok(ToolRequest::MoveEmail(a)) && texts(a.email_ids@) == l("emailIds"@) && a.mailbox_id@ == s("mailboxId"@)
    } else if name == "delete_email"@ {
        r matches Ok(ToolRequest::DeleteEmail(a)) && texts(a.email_ids@) == l("emailIds"@) && a.permanent == b("permanent"@)
    } else if name == "flag_email"@ {
        if member(args, "value"@) is None {
            request_refused(r, "value is required"@)
        } else {
            r matches Ok(ToolRequest::FlagEmail(a)) && texts(a.email_ids@) == l("emailIds"@) && a.flag@ == s("flag"@)
                && a.value == b("value"@)
        }
    } else if name == "get_vacation_response"@ {
        r matches Ok(ToolRequest::GetVacationResponse)
    } else if name == "set_vacation_response"@ {
        r matches Ok(ToolRequest::SetVacationResponse(a)) && a.is_enabled == bool_at_spec(args, "/isEnabled"@)
            && change_read(args, "fromDate"@, a.from_date) && change_read(args, "toDate"@, a.to_date)
            && change_read(args, "subject"@, a.subject) && change_read(args, "textBody"@, a.text_body)
            && change_read(args, "htmlBody"@, a.html_body)
    } else if name == "list_identities"@ {
        r matches Ok(ToolRequest::ListIdentities)
    } else if name == "list_masked_emails"@ {
        if s("state"@).len() == 0 {
            r matches Ok(ToolRequest::ListMaskedEmails(a)) && a.state is None
        } else {
            match state_named(s("state"@)) {
                Some(st) => r matches Ok(ToolRequest::ListMaskedEmails(a)) && a.state == Some(st),
                None => request_refused(r, "state must be pending, enabled, disabled, or deleted"@),
            }
        }
    } else if name == "create_masked_email"@ {
        r matches Ok(ToolRequest::CreateMaskedEmail(a)) && a.for_domain@ == s("forDomain"@)
            && a.description@ == s("description"@) && a.email_prefix@ == s("emailPrefix"@)
    } else if name == "update_masked_email"@ {
        match state_named(s("state"@)) {
            Some(st) => if st == MaskedEmailState::Pending {
                request_refused(r, "state must be enabled, disabled, or deleted"@)
            } else {
                r matches Ok(ToolRequest::UpdateMaskedEmail(a)) && a.id@ == s("id"@) && a.state == st
            },
            None => request_refused(r, "state must be enabled, disabled, or deleted"@),
        }
    } else if name == "list_address_books"@ {
        r matches Ok(ToolRequest::ListAddressBooks)
    } else if name == "get_contacts"@ {
        r matches Ok(ToolRequest::GetContacts(a)) && a.address_book_id@ == s("addressBookId"@) && a.limit == n("limit"@)
    } else if name == "search_contacts"@ {
        r matches Ok(ToolRequest::SearchContacts(a)) && a.query@ == s("query"@) && a.limit == n("limit"@)
    } else if name == "create_contact"@ {
        r matches Ok(ToolRequest::CreateContact(a)) && a.name@ == s("name"@)
            && emails_read(a.emails@, array_arg(args, "emails"@)) && phones_read(a.phones@, array_arg(args, "phones"@))
            && a.company@ == s("company"@) && a.notes@ == s("notes"@) && a.address_book_id@ == s("addressBookId"@)
    } else if name == "update_contact"@ {
        r matches Ok(ToolRequest::UpdateContact(a)) && a.contact_id@ == s("contactId"@) && patch_read(args, a.patch)
    } else if name == "delete_contact"@ {
        r matches Ok(ToolRequest::DeleteContact(a)) && a.contact_id@ == s("contactId"@)
    } else {
        request_refused(r, "unknown tool: "@ + name)
    }
}

/// Read a tool call: the action the tool `name` runs with `args` (see `tool_read`).
pub fn read_tool_request(name: &str, args: &JsonValue) -> (r: Result<ToolRequest, Error>)
    ensures
        tool_read(name@, args@, r),
{
    if text::str_eq(name, "list_mailboxes") {
        Ok(ToolRequest::ListMailboxes(mailbox::ListMailboxes { role: str_param(args, "role") }))
    } else if text::str_eq(name, "manage_mailbox") {
        let kind = str_param(args, "action");
        let action = mailbox::ManageMailbox::parse(kind.as_str(), str_param(args, "name"), str_param(args, "mailboxId"), str_param(args, "parentId"))?;
        Ok(ToolRequest::ManageMailbox(action))
    } else if text::str_eq(name, "get_emails") {
        Ok(ToolRequest::GetEmails(email::GetEmails {
            mailbox_id: str_param(args, "mailboxId"),
            mailbox_name: str_param(args, "mailboxName"),
            limit: u32_param(args, "limit"),
            include_body: bool_param(args, "includeBody"),
        }))
    } else if text::str_eq(name, "search_emails") {
        Ok(ToolRequest::SearchEmails(email::SearchEmails {
            keyword: str_param(args, "keyword"),
            from: str_param(args, "from"),
            to: str_param(args, "to"),
            subject: str_param(args, "subject"),
            mailbox_id: str_param(args, "mailboxId"),
            has_attachment: bool_at(args, "/hasAttachment"),
            after: str_param(args, "after"),
            before: str_param(args, "before"),
            limit: u32_param(args, "limit"),
            include_body: bool_param(args, "includeBody"),
        }))
    } else if text::str_eq(name, "get_email_body") {
        Ok(ToolRequest::GetEmailBody(email::GetEmailBody { email_id: str_param(args, "emailId"), format: str_param(args, "format") }))
    } else if text::str_eq(name, "send_email") {
        Ok(ToolRequest::SendEmail(email::SendEmail {
            to: str_array_param(args, "to"),
            subject: str_param(args, "subject"),
            body: str_param(args, "body"),
            cc: str_array_param(args, "cc"),
            bcc: str_array_param(args, "bcc"),
            is_html: bool_param(args, "isHtml"),
            in_reply_to: str_param(args, "inReplyTo"),
        }))
    } else if text::str_eq(name, "move_email") {
        Ok(ToolRequest::MoveEmail(email::MoveEmail { email_ids: str_array_param(args, "emailIds"), mailbox_id: str_param(args, "mailboxId") }))
    } else if text::str_eq(name, "delete_email") {
        Ok(ToolRequest::DeleteEmail(email::DeleteEmail { email_ids: str_array_param(args, "emailIds"), permanent: bool_param(args, "permanent") }))
    } else if text::str_eq(name, "flag_email") {
        if args.get("value").is_none() {
            return Err(Error::invalid("value is required"));
        }
        Ok(ToolRequest::FlagEmail(email::FlagEmail {
            email_ids: str_array_param(args, "emailIds"),
            flag: str_param(args, "flag"),
            value: bool_param(args, "value"),
        }))
    } else if text::str_eq(name, "get_vacation_response") {
        Ok(ToolRequest::GetVacationResponse)
    } else if text::str_eq(name, "set_vacation_response") {
        Ok(ToolRequest::SetVacationResponse(vacation::SetVacationResponse {
            is_enabled: bool_at(args, "/isEnabled"),
            from_date: FieldChange::from_arg(args, "fromDate"),
            to_date: FieldChange::from_arg(args, "toDate"),
            subject: FieldChange::from_arg(args, "subject"),
            text_body: FieldChange::from_arg(args, "textBody"),
            html_body: FieldChange::from_arg(args, "htmlBody"),
        }))
    } else if text::str_eq(name, "list_identities") {
        Ok(ToolRequest::ListIdentities)
    } else if text::str_eq(name, "list_masked_emails") {
        let st = str_param(args, "state");
        let state = if st.as_str().is_empty() { None } else { Some(MaskedEmailState::parse(st.as_str())?) };
        Ok(ToolRequest::ListMaskedEmails(masked_email::ListMaskedEmails { state }))
    } else if text::str_eq(name, "create_masked_email") {
        Ok(ToolRequest::CreateMaskedEmail(masked_email::CreateMaskedEmail {
            for_domain: str_param(args, "forDomain"),
            description: str_param(args, "description"),
            email_prefix: str_param(args, "emailPrefix"),
        }))
    } else if text::str_eq(name, "update_masked_email") {
        let st = str_param(args, "state");
        let state = MaskedEmailState::parse_settable(st.as_str())?;
        Ok(ToolRequest::UpdateMaskedEmail(masked_email::UpdateMaskedEmail { id: str_param(args, "id"), state }))
    } else if text::str_eq(name, "list_address_books") {
        Ok(ToolRequest::ListAddressBooks)
    } else if text::str_eq(name, "get_contacts") {
        Ok(ToolRequest::GetContacts(contact::GetContacts { address_book_id: str_param(args, "addressBookId"), limit: u32_param(args, "limit") }))
    } else if text::str_eq(name, "search_contacts") {
        Ok(ToolRequest::SearchContacts(contact::SearchContacts { query: str_param(args, "query"), limit: u32_param(args, "limit") }))
    } else if text::str_eq(name, "create_contact") {
        Ok(ToolRequest::CreateContact(contact::CreateContact {
            name: str_param(args, "name"),
            emails: email_inputs(args, "emails"),
            phones: phone_inputs(args, "phones"),
            company: str_param(args, "company"),
            notes: str_param(args, "notes"),
            address_book_id: str_param(args, "addressBookId"),
        }))
    } else if text::str_eq(name, "update_contact") {
        let n = str_param(args, "name");
        let patch = ContactPatch {
            name: if n.as_str().is_empty() { None } else { Some(n) },
            emails: if args.get("emails").is_some() { Some(email_inputs(args, "emails")) } else { None },
            phones: if args.get("phones").is_some() { Some(phone_inputs(args, "phones")) } else { None },
            company: if args.get("company").is_some() { Some(str_param(args, "company")) } else { None },
            notes: if args.get("notes").is_some() { Some(str_param(args, "notes")) } else { None },
        };
        Ok(ToolRequest::UpdateContact(contact::UpdateContact { contact_id: str_param(args, "contactId"), patch }))
    } else if text::str_eq(name, "delete_contact") {
        Ok(ToolRequest::DeleteContact(contact::DeleteContact { contact_id: str_param(args, "contactId") }))
    } else {
        Err(Error::InvalidParams(text::concat("unknown tool: ", name)))
    }
}

/// The names of the tools the server advertises, in order.
pub open spec fn tool_names() -> Seq<Seq<char>> {
    all_tool_heads().map_values(|h: (Seq<char>, Seq<char>)| h.0)
}

/// Whether `name` is the name of an advertised tool.
pub open spec fn advertised(name: Seq<char>) -> bool {
    tool_names().contains(name)
}

/// Every tool the dispatch knows is advertised.
proof fn lemma_dispatched_are_advertised()
    ensures
        forall|n: Seq<char>| n == "list_mailboxes"@ || n == "manage_mailbox"@ || n == "get_emails"@ || n == "search_emails"@ || n == "get_email_body"@ || n == "send_email"@ || n == "move_email"@ || n == "delete_email"@ || n == "flag_email"@ || n == "get_vacation_response"@ || n == "set_vacation_response"@ || n == "list_identities"@ || n == "list_masked_emails"@ || n == "create_masked_email"@ || n == "update_masked_email"@ || n == "list_address_books"@ || n == "get_contacts"@ || n == "search_contacts"@ || n == "create_contact"@ || n == "update_contact"@ || n == "delete_contact"@ ==> #[trigger] advertised(n),
{
    assert(tool_names() =~= seq!["list_mailboxes"@, "manage_mailbox"@, "get_emails"@, "search_emails"@, "get_email_body"@, "send_email"@, "move_email"@, "delete_email"@, "flag_email"@, "get_vacation_response"@, "set_vacation_response"@, "list_identities"@, "list_masked_emails"@, "create_masked_email"@, "update_masked_email"@, "list_address_books"@, "get_contacts"@, "search_contacts"@, "create_contact"@, "update_contact"@, "delete_contact"@]);
    assert forall|n: Seq<char>| n == "list_mailboxes"@ || n == "manage_mailbox"@ || n == "get_emails"@ || n == "search_emails"@ || n == "get_email_body"@ || n == "send_email"@ || n == "move_email"@ || n == "delete_email"@ || n == "flag_email"@ || n == "get_vacation_response"@ || n == "set_vacation_response"@ || n == "list_identities"@ || n == "list_masked_emails"@ || n == "create_masked_email"@ || n == "update_masked_email"@ || n == "list_address_books"@ || n == "get_contacts"@ || n == "search_contacts"@ || n == "create_contact"@ || n == "update_contact"@ || n == "delete_contact"@ implies #[trigger] advertised(n) by {
        if n == "list_mailboxes"@ { assert(tool_names()[0] == n); }
        if n == "manage_mailbox"@ { assert(tool_names()[1] == n); }
        if n == "get_emails"@ { assert(tool_names()[2] == n); }
        if n == "search_emails"@ { assert(tool_names()[3] == n); }
        if n == "get_email_body"@ { assert(tool_names()[4] == n); }
        if n == "send_email"@ { assert(tool_names()[5] == n); }
        if n == "move_email"@ { assert(tool_names()[6] == n); }
        if n == "delete_email"@ { assert(tool_names()[7] == n); }
        if n == "flag_email"@ { assert(tool_names()[8] == n); }
        if n == "get_vacation_response"@ { assert(tool_names()[9] == n); }
        if n == "set_vacation_response"@ { assert(tool_names()[10] == n); }
        if n == "list_identities"@ { assert(tool_names()[11] == n); }
        if n == "list_masked_emails"@ { assert(tool_names()[12] == n); }
        if n == "create_masked_email"@ { assert(tool_names()[13] == n); }
        if n == "update_masked_email"@ { assert(tool_names()[14] == n); }
        if n == "list_address_books"@ { assert(tool_names()[15] == n); }
        if n == "get_contacts"@ { assert(tool_names()[16] == n); }
        if n == "search_contacts"@ { assert(tool_names()[17] == n); }
        if n == "create_contact"@ { assert(tool_names()[18] == n); }
        if n == "update_contact"@ { assert(tool_names()[19] == n); }
        if n == "delete_contact"@ { assert(tool_names()[20] == n); }
    }
}

/// No refusal of an advertised tool's call is the unknown-tool refusal: each of their
/// messages starts otherwise than `unknown tool: `.
proof fn lemma_refusals_are_not_unknown(name: Seq<char>, args: Jv)
    requires
        advertised(name),
    ensures
        dispatch_refusal(name, args) matches Some(m) ==> m.len() > 0 && m[0] != "unknown tool: "@[0],
{
    lemma_dispatched_are_advertised();
    reveal_strlit("unknown tool: ");
    reveal_strlit("action is required");
    reveal_strlit("action must be create, rename, or delete");
    reveal_strlit("at least one field to update is required");
    reveal_strlit("at least one search filter required");
    reveal_strlit("body is required");
    reveal_strlit("contactId is required");
    reveal_strlit("emailId is required");
    reveal_strlit("emailIds is required");
    reveal_strlit("flag is required");
    reveal_strlit("format must be text, html, or both");
    reveal_strlit("id is required");
    reveal_strlit("invalid flag: ");
    reveal_strlit("isEnabled is required");
    reveal_strlit("mailboxId is required");
    reveal_strlit("mailboxId is required for delete");
    reveal_strlit("mailboxId is required for rename");
    reveal_strlit("must provide mailboxId or mailboxName");
    reveal_strlit("name is required");
    reveal_strlit("name is required for create");
    reveal_strlit("name is required for rename");
    reveal_strlit("query is required");
    reveal_strlit("state must be enabled, disabled, or deleted");
    reveal_strlit("state must be pending, enabled, disabled, or deleted");
    reveal_strlit("subject is required");
    reveal_strlit("to is required");
    reveal_strlit("unknown tool: ");
    reveal_strlit("value is required");
    assert("action is required"@[0] != 'u');
    assert("action must be create, rename, or delete"@[0] != 'u');
    assert("at least one field to update is required"@[0] != 'u');
    assert("at least one search filter required"@[0] != 'u');
    assert("body is required"@[0] != 'u');
    assert("contactId is required"@[0] != 'u');
    assert("emailId is required"@[0] != 'u');
    assert("emailIds is required"@[0] != 'u');
    assert("flag is required"@[0] != 'u');
    assert("format must be text, html, or both"@[0] != 'u');
    assert("id is required"@[0] != 'u');
    assert("invalid flag: "@[0] != 'u');
    assert("isEnabled is required"@[0] != 'u');
    assert("mailboxId is required"@[0] != 'u');
    assert("mailboxId is required for delete"@[0] != 'u');
    assert("mailboxId is required for rename"@[0] != 'u');
    assert("must provide mailboxId or mailboxName"@[0] != 'u');
    assert("name is required"@[0] != 'u');
    assert("name is required for create"@[0] != 'u');
    assert("name is required for rename"@[0] != 'u');
    assert("query is required"@[0] != 'u');
    assert("state must be enabled, disabled, or deleted"@[0] != 'u');
    assert("state must be pending, enabled, disabled, or deleted"@[0] != 'u');
    assert("subject is required"@[0] != 'u');
    assert("to is required"@[0] != 'u');
    assert("unknown tool: "@[0] == 'u');
    assert("value is required"@[0] != 'u');
    assert(tool_names() =~= seq!["list_mailboxes"@, "manage_mailbox"@, "get_emails"@, "search_emails"@, "get_email_body"@, "send_email"@, "move_email"@, "delete_email"@, "flag_email"@, "get_vacation_response"@, "set_vacation_response"@, "list_identities"@, "list_masked_emails"@, "create_masked_email"@, "update_masked_email"@, "list_address_books"@, "get_contacts"@, "search_contacts"@, "create_contact"@, "update_contact"@, "delete_contact"@]);
}

/// A tool call is refused as an unknown tool exactly when its name is not among the
/// tools the server advertises: every advertised tool is dispatched, whatever its
/// arguments, and no refusal of an advertised tool reads as the unknown-tool one.
pub proof fn law_unknown_tool_only_unadvertised(name: Seq<char>, args: Jv)
    ensures
        (dispatch_refusal(name, args) == Some("unknown tool: "@ + name)) <==> !advertised(name),
{
    lemma_dispatched_are_advertised();
    reveal_strlit("unknown tool: ");
    if advertised(name) {
        lemma_refusals_are_not_unknown(name, args);
        assert(("unknown tool: "@ + name)[0] == "unknown tool: "@[0]);
    }
}

/// What `r` is when a result `v` is put into display shape by `shown`: the shown value, or
/// the same error.
pub open spec fn presented(v: Result<JsonValue, Error>, shown: spec_fn(Jv) -> Jv, r: Result<JsonValue, Error>) -> bool {
    match v {
        Ok(x) => r matches Ok(y) && y@ == shown(x@),
        Err(e) => r matches Err(f) && f == e,
    }
}

/// What running a tool call `q` gives, the log going from `before` to `after`: the
/// outcome of its action, put into display shape for the listing and body views.
pub open spec fn request_outcome(q: ToolRequest, ctx: Context, before: Seq<Exchanged>, after: Seq<Exchanged>, r: Result<JsonValue, Error>) -> bool {
    match q {
        ToolRequest::ListMailboxes(a) => exists|v: Result<JsonValue, Error>| #[trigger] a.outcome(ctx, before, after, v)
            && presented(v, |x: Jv| present::mailbox_list_view(x, a.role@), r),
        ToolRequest::ManageMailbox(a) => a.outcome(ctx, before, after, r),
        ToolRequest::GetEmails(a) => exists|v: Result<JsonValue, Error>| #[trigger] a.outcome(ctx, before, after, v)
            && presented(v, |x: Jv| present::display_list(x), r),
        ToolRequest::SearchEmails(a) => exists|v: Result<JsonValue, Error>| #[trigger] a.outcome(ctx, before, after, v)
            && presented(v, |x: Jv| present::display_list(x), r),
        ToolRequest::GetEmailBody(a) => exists|v: Result<JsonValue, Error>| #[trigger] a.outcome(ctx, before, after, v)
            && presented(v, |x: Jv| present::display_email(x), r),
        ToolRequest::SendEmail(a) => a.outcome(ctx, before, after, r),
        ToolRequest::MoveEmail(a) => a.outcome(ctx, before, after, r),
        ToolRequest::DeleteEmail(a) => a.outcome(ctx, before, after, r),
        ToolRequest::FlagEmail(a) => a.outcome(ctx, before, after, r),
        ToolRequest::GetVacationResponse => vacation::GetVacationResponse.outcome(ctx, before, after, r),
        ToolRequest::SetVacationResponse(a) => a.outcome(ctx, before, after, r),
        ToolRequest::ListIdentities => exists|v: Result<JsonValue, Error>| #[trigger] identity::ListIdentities.outcome(ctx, before, after, v)
            && presented(v, |x: Jv| present::project_rows(x, seq!["id"@, "name"@, "email"@, "replyTo"@]), r),
        ToolRequest::ListMaskedEmails(a) => exists|v: Result<JsonValue, Error>| #[trigger] a.outcome(ctx, before, after, v)
            && presented(v, |x: Jv| present::masked_email_list_view(x, match a.state { Some(st) => Some(present::state_label(st)), None => None }), r),
        ToolRequest::CreateMaskedEmail(a) => a.outcome(ctx, before, after, r),
        ToolRequest::UpdateMaskedEmail(a) => a.outcome(ctx, before, after, r),
        ToolRequest::ListAddressBooks => contact::ListAddressBooks.outcome(ctx, before, after, r),
        ToolRequest::GetContacts(a) => a.outcome(ctx, before, after, r),
        ToolRequest::SearchContacts(a) => a.outcome(ctx, before, after, r),
        ToolRequest::CreateContact(a) => a.outcome(ctx, before, after, r),
        ToolRequest::UpdateContact(a) => a.outcome(ctx, before, after, r),
        ToolRequest::DeleteContact(a) => a.outcome(ctx, before, after, r),
    }
}

/// What a tool call gives, the log going from `before` to `after`: a refusal makes no
/// exchange; an unadvertised name is refused as unknown, and an advertised one never is;
/// a call not refused runs the action its arguments read into (see `request_outcome`).
pub open spec fn dispatched(name: Seq<char>, args: Jv, ctx: Context, before: Seq<Exchanged>, after: Seq<Exchanged>, r: Result<JsonValue, Error>) -> bool {
    &&& (dispatch_refusal(name, args) matches Some(m) ==> refused_with(r, m) && after == before)
    &&& (!advertised(name) ==> refused_with(r, "unknown tool: "@ + name) && after == before)
    &&& (advertised(name) ==> !(dispatch_refusal(name, args) matches Some(m) && m[0] == "unknown tool: "@[0]))
    &&& (dispatch_refusal(name, args) is None ==> exists|q: ToolRequest| #[trigger] tool_read(name, args, Ok(q))
        && request_outcome(q, ctx, before, after, r))
}

/// Run the tool `name` with `args`: read its arguments (`read_tool_request`), run the
/// action, and put its result into display shape (email lists and bodies, identity
/// lists, filtered mailbox and masked email lists).
pub fn dispatch_tool<T: HttpTransport>(name: &str, args: &JsonValue, ctx: &Context, t: &mut Exchange<T>) -> (r: Result<JsonValue, Error>)
    ensures
        dispatched(name@, args@, *ctx, old(t).log(), final(t).log(), r),
{
    proof {
        lemma_dispatched_are_advertised();
        if advertised(name@) {
            lemma_refusals_are_not_unknown(name@, args@);
        }
    }
    let req = match read_tool_request(name, args) {
        Ok(q) => q,
        Err(e) => return Err(e),
    };
    let ghost q = req;
    let ghost before = t.log();
    let r = match req {
        ToolRequest::ListMailboxes(action) => {
            let res = action.run(ctx, t);
            let ghost v = res;
            match res {
                Ok(value) => Ok(present::project_mailbox_list(&value, action.role.as_str())),
                Err(e) => Err(e),
            }
        },
        ToolRequest::ManageMailbox(action) => action.run(ctx, t),
        ToolRequest::GetEmails(action) => {
            let res = action.run(ctx, t);
            let ghost v = res;
            match res {
                Ok(value) => {
                    let mut value = value;
                    present::project_email_list(&mut value);
                    Ok(value)
                },
                Err(e) => Err(e),
            }
        },
        ToolRequest::SearchEmails(action) => {
            let res = action.run(ctx, t);
            let ghost v = res;
            match res {
                Ok(value) => {
                    let mut value = value;
                    present::project_email_list(&mut value);
                    Ok(value)
                },
                Err(e) => Err(e),
            }
        },
        ToolRequest::GetEmailBody(action) => {
            let res = action.run(ctx, t);
            let ghost v = res;
            match res {
                Ok(value) => {
                    let mut value = value;
                    present::project_email_body(&mut value);
                    Ok(value)
                },
                Err(e) => Err(e),
            }
        },
        ToolRequest::SendEmail(action) => action.run(ctx, t),
        ToolRequest::MoveEmail(action) => action.run(ctx, t),
        ToolRequest::DeleteEmail(action) => action.run(ctx, t),
        ToolRequest::FlagEmail(action) => action.run(ctx, t),
        ToolRequest::GetVacationResponse => vacation::GetVacationResponse.run(ctx, t),
        ToolRequest::SetVacationResponse(action) => action.run(ctx, t),
        ToolRequest::ListIdentities => {
            let res = identity::ListIdentities.run(ctx, t);
            let ghost v = res;
            match res {
                Ok(value) => Ok(present::project_identity_list(&value)),
                Err(e) => Err(e),
            }
        },
        ToolRequest::ListMaskedEmails(action) => {
            let res = action.run(ctx, t);
            let ghost v = res;
            match res {
                Ok(value) => Ok(present::project_masked_email_list(&value, action.state)),
                Err(e) => Err(e),
            }
        },
        ToolRequest::CreateMaskedEmail(action) => action.run(ctx, t),
        ToolRequest::UpdateMaskedEmail(action) => action.run(ctx, t),
        ToolRequest::ListAddressBooks => contact::ListAddressBooks.run(ctx, t),
        ToolRequest::GetContacts(action) => action.run(ctx, t),
        ToolRequest::SearchContacts(action) => action.run(ctx, t),
        ToolRequest::CreateContact(action) => action.run(ctx, t),
        ToolRequest::UpdateContact(action) => action.run(ctx, t),
        ToolRequest::DeleteContact(action) => action.run(ctx, t),
    };
    assert(tool_read(name@, args@, Ok(q)));
    r
}

// ---------------------------------------------------------------------------------------
// MCP methods

/// The protocol version this server speaks.
pub open spec fn protocol_version() -> Seq<char> {
    "2025-11-25"@
}

/// This server's version.
pub fn server_version() -> (r: &'static str)
    ensures
        r@ == "0.1.0"@,
{
    "0.1.0"
}

/// The result of `initialize`: the protocol version, the tools capability (its list
/// does not change), and the server's name and version.
pub open spec fn initialize_json() -> Jv {
    Jv::Obj(map![
        "protocolVersion"@ => Jv::Str(protocol_version()),
        "capabilities"@ => Jv::Obj(map!["tools"@ => Jv::Obj(map!["listChanged"@ => Jv::Bool(false)])]),
        "serverInfo"@ => Jv::Obj(map!["name"@ => Jv::Str("fastermail"@), "version"@ => Jv::Str("0.1.0"@)])
    ])
}

/// Answer `initialize`: the protocol version, the tool capability (a fixed list), and
/// this server's name and version. The client's parameters do not change the answer.
pub fn handle_initialize(params: &JsonValue) -> (r: JsonValue)
    ensures
        r@ == initialize_json(),
{
    let result = InitializeResult {
        protocol_version: text::own("2025-11-25"),
        capabilities: ServerCapabilities { tools: ToolsCapability { list_changed: false } },
        server_info: ServerInfo { name: text::own("fastermail"), version: text::own(server_version()) },
    };
    result.to_json()
}

/// The names and descriptions of every tool the server offers, in order.
pub open spec fn all_tool_heads() -> Seq<(Seq<char>, Seq<char>)> {
    mailbox::tool_list() + email::tool_list() + vacation::tool_list()
        + identity::tool_list() + masked_email::tool_list() + contact::tool_list()
}

/// Whether a `tools/list` result lists exactly the tools of `heads`, in order, each with
/// its name, its description, and an object input schema.
pub open spec fn lists_tools(j: Jv, heads: Seq<(Seq<char>, Seq<char>)>) -> bool {
    j matches Jv::Obj(m) && m.contains_key("tools"@) && (m["tools"@] matches Jv::Arr(a)
        && a.len() == heads.len()
        && forall|i: int| 0 <= i < a.len() ==> (#[trigger] a[i] matches Jv::Obj(t)
            && t.contains_key("name"@) && t["name"@] == Jv::Str(heads[i].0)
            && t.contains_key("description"@) && t["description"@] == Jv::Str(heads[i].1)
            && t.contains_key("inputSchema"@) && crate::actions::is_object_schema(t["inputSchema"@])))
}

/// Whether the input schemas of a `tools/list` result declare, tool by tool, the
/// property names and required fields of `fields`, with no `required` key where none is
/// required.
pub open spec fn lists_fields(j: Jv, fields: Seq<(Seq<Seq<char>>, Seq<Seq<char>>)>) -> bool {
    j matches Jv::Obj(m) && m.contains_key("tools"@) && (m["tools"@] matches Jv::Arr(a)
        && a.len() == fields.len()
        && forall|i: int| 0 <= i < a.len() ==> (#[trigger] a[i] matches Jv::Obj(t)
            && t.contains_key("inputSchema"@)
            && crate::actions::property_names(t["inputSchema"@]) == fields[i].0.to_set()
            && crate::actions::required_fields(t["inputSchema"@]) == fields[i].1
            && t["inputSchema"@]->Obj_0.contains_key("required"@) == (fields[i].1.len() > 0)))
}

/// Whether the `tools/list` result `j` declares, for each tool in order, the types of its
/// properties that `types` gives, describes them as `docs` gives, and limits them to the
/// values `enums` gives.
pub open spec fn lists_properties(
    j: Jv,
    types: Seq<Seq<(Seq<char>, Jv)>>,
    docs: Seq<Seq<(Seq<char>, Jv)>>,
    enums: Seq<Seq<(Seq<char>, Jv)>>,
) -> bool {
    j matches Jv::Obj(m) && m.contains_key("tools"@) && (m["tools"@] matches Jv::Arr(a)
        && a.len() == types.len() && a.len() == docs.len() && a.len() == enums.len()
        && forall|i: int| 0 <= i < a.len() ==> (#[trigger] a[i] matches Jv::Obj(t)
            && t.contains_key("inputSchema"@)
            && crate::actions::property_types(t["inputSchema"@]) == crate::actions::named_map(types[i])
            && crate::actions::property_descriptions(t["inputSchema"@]) == crate::actions::named_map(docs[i])
            && crate::actions::property_enums(t["inputSchema"@]) == crate::actions::named_map(enums[i])))
}

/// Answer `tools/list`: every tool of every module, in order, with its description and
/// its object input schema, which declares the tool's properties and required fields.
pub fn handle_tools_list() -> (r: JsonValue)
    ensures
        lists_tools(r@, all_tool_heads()),
        lists_fields(r@, crate::actions::all_tool_fields()),
        lists_properties(r@, crate::actions::all_tool_types(), crate::actions::all_tool_docs(), crate::actions::all_tool_enums()),
{
    let result = ToolsListResult { tools: tool_definitions() };
    let r = result.to_json();
    proof {
        let ts = result.tools@;
        let a = ts.map_values(|t: crate::mcp::types::Tool| crate::mcp::types::tool_json(t));
        assert forall|i: int| 0 <= i < a.len() implies (#[trigger] a[i] matches Jv::Obj(t)
            && t.contains_key("name"@) && t["name"@] == Jv::Str(all_tool_heads()[i].0)
            && t.contains_key("description"@) && t["description"@] == Jv::Str(all_tool_heads()[i].1)
            && t.contains_key("inputSchema"@) && crate::actions::is_object_schema(t["inputSchema"@])) by {
            reveal_strlit("name");
            reveal_strlit("description");
            reveal_strlit("inputSchema");
            assert("name"@.len() != "description"@.len() && "name"@.len() != "inputSchema"@.len());
            assert("description"@[0] != "inputSchema"@[0]);
            assert(crate::actions::tool_heads(ts)[i] == crate::actions::tool_head(ts[i]));
            assert(crate::actions::is_object_schema(ts[i].input_schema@));
        }
        let f = crate::actions::all_tool_fields();
        assert forall|i: int| 0 <= i < a.len() implies (#[trigger] a[i] matches Jv::Obj(t)
            && t.contains_key("inputSchema"@)
            && crate::actions::property_names(t["inputSchema"@]) == f[i].0.to_set()
            && crate::actions::required_fields(t["inputSchema"@]) == f[i].1
            && t["inputSchema"@]->Obj_0.contains_key("required"@) == (f[i].1.len() > 0)) by {
            assert(a[i] == crate::mcp::types::tool_json(ts[i]));
            assert(crate::actions::property_names(ts[i].input_schema@) == f[i].0.to_set());
        }
        let y = crate::actions::all_tool_types();
        let d = crate::actions::all_tool_docs();
        let e = crate::actions::all_tool_enums();
        assert forall|i: int| 0 <= i < a.len() implies (#[trigger] a[i] matches Jv::Obj(t)
            && t.contains_key("inputSchema"@)
            && crate::actions::property_types(t["inputSchema"@]) == crate::actions::named_map(y[i])
            && crate::actions::property_descriptions(t["inputSchema"@]) == crate::actions::named_map(d[i])
            && crate::actions::property_enums(t["inputSchema"@]) == crate::actions::named_map(e[i])) by {
            assert(a[i] == crate::mcp::types::tool_json(ts[i]));
            assert(crate::actions::property_types(ts[i].input_schema@) == crate::actions::named_map(y[i]));
            assert(crate::actions::property_descriptions(ts[i].input_schema@) == crate::actions::named_map(d[i]));
            assert(crate::actions::property_enums(ts[i].input_schema@) == crate::actions::named_map(e[i]));
        }
    }
    r
}

/// What a tool call leaves to record: the tool, its request, and its result (or error).
#[derive(Debug)]
pub struct ToolCallRecord {
    pub tool: String,
    pub request: JsonValue,
    pub result: JsonValue,
}

/// Whether `reply` answers a call whose result is `res`: the value's indented JSON text,
/// or the error's message flagged as an error.
pub open spec fn call_replied(res: Result<JsonValue, Error>, reply: JsonValue) -> bool {
    match res {
        Ok(v) => reply@ == reply_json(pretty_json_text(v@), false),
        Err(e) => reply@ == reply_json(error_text(e), true),
    }
}

/// Whether `rec` records a call of `name` with `args` whose result is `res`: the request
/// `{"tool": name, "arguments": args}`, and the value, or `{"error": message}`.
pub open spec fn recorded(rec: ToolCallRecord, name: Seq<char>, args: Jv, res: Result<JsonValue, Error>) -> bool {
    &&& rec.tool@ == name
    &&& rec.request@ == Jv::Obj(map!["tool"@ => Jv::Str(name), "arguments"@ => args])
    &&& rec.result@ == match res {
        Ok(v) => v@,
        Err(e) => Jv::Obj(map!["error"@ => Jv::Str(error_text(e))]),
    }
}

/// Whether `reply` (and `rec`) answer a `tools/call` with `params`, the exchanges of the
/// call taking the log from `before` to `after`: malformed params and an empty tool name
/// are replied to as errors with nothing sent; otherwise the tool is dispatched, its
/// outcome replied (see `call_replied`), and, with a recorder, recorded.
pub open spec fn tools_call_answered(
    params: Jv,
    ctx: Context,
    before: Seq<Exchanged>,
    after: Seq<Exchanged>,
    reply: JsonValue,
    rec: Option<ToolCallRecord>,
) -> bool {
    match ToolCallParams::read_spec(params) {
        None => reply@ == reply_json("malformed tool call params: expected an object with a string name"@, true)
            && rec is None && after == before,
        Some((name, args)) => if name.len() == 0 {
            reply@ == reply_json("tool name is required"@, true) && rec is None && after == before
        } else {
            exists|res: Result<JsonValue, Error>| #[trigger] dispatched(name, args, ctx, before, after, res)
                && call_replied(res, reply)
                && (rec is Some <==> ctx.recorder is Some)
                && (rec matches Some(x) ==> recorded(x, name, args, res))
        },
    }
}

/// Answer `tools/call`: read the call, run the tool, and reply with its result as
/// indented JSON text, or with the error's text flagged as an error. Malformed params
/// and a missing tool name are replied to as errors, and nothing is run. With a recorder
/// in the context, the call (its tool and arguments) and its result (or error) are also
/// handed back for recording.
pub fn handle_tools_call<T: HttpTransport>(params: &JsonValue, ctx: &Context, t: &mut Exchange<T>) -> (r: (JsonValue, Option<ToolCallRecord>))
    ensures
        tools_call_answered(params@, *ctx, old(t).log(), final(t).log(), r.0, r.1),
{
    let call = match ToolCallParams::from_json(params) {
        Some(c) => c,
        None => {
            let res = ToolCallResult::error(text::own("malformed tool call params: expected an object with a string name"));
            return (res.to_json(), None);
        },
    };
    if call.name.as_str().is_empty() {
        let res = ToolCallResult::error(text::own("tool name is required"));
        return (res.to_json(), None);
    }
    let result = dispatch_tool(call.name.as_str(), &call.arguments, ctx, t);
    let ghost res = result;
    let response = match &result {
        Ok(data) => {
            let shown = pretty_json(data);
            let reply = ToolCallResult::text(shown);
            let ghost t = reply.content@[0].text@;
            let v = reply.to_json();
            assert(v@ == reply_json(t, false));
            v
        },
        Err(e) => {
            let reply = ToolCallResult::error(e.message());
            let ghost t = reply.content@[0].text@;
            let v = reply.to_json();
            assert(v@ == reply_json(t, true));
            v
        },
    };
    let record = match &ctx.recorder {
        Some(_) => {
            let request = JsonValue::object(crate::json::JsonObject::new()
                .with("tool", JsonValue::string(call.name.as_str()))
                .with("arguments", call.arguments.deep_clone()));
            assert(request@->Obj_0 =~= map!["tool"@ => Jv::Str(call.name@), "arguments"@ => call.arguments@]);
            let res = match &result {
                Ok(data) => data.deep_clone(),
                Err(e) => {
                    let m = e.message();
                    let o = JsonValue::object(crate::json::JsonObject::new().with("error", JsonValue::Str(m)));
                    proof { JsonValue::Str(m).lemma_view(); }
                    assert(o@->Obj_0 =~= map!["error"@ => Jv::Str(error_text(*e))]);
                    o
                },
            };
            Some(ToolCallRecord { tool: call.name.clone(), request, result: res })
        },
        None => None,
    };
    assert(dispatched(call.name@, call.arguments@, *ctx, old(t).log(), t.log(), res));
    (response, record)
}

} // verus!
