//! Mail clients: sending over SMTP, listing and reading over IMAP.
use vstd::prelude::*;
use crate::json::{array_text, member_views, object_text, quote, quoted, write_array, write_object};
use crate::number::{decimal, parse_u16, parsed_unsigned, u64_text};
use crate::table::{config_get, lookup, lemma_put, put_at, resolve_field, resolved, setting, Config, Table};
use crate::text::{cat2, cat3, cat4, copy_opt, from_utf8_lossy, join, joined, lossy_text, lowercase, opt_view, split_at_char, split_char, starts_with, text_or_empty, to_lowercase, trim, trimmed, views};
use crate::world::{bound_config, first_of_package, one, WitInterface, WitWorld};
use mailparse::MailHeaderMap;

verus! {

pub const PLUGIN_ID: &'static str = "plugin-mail";

/// SMTP and IMAP settings of a client.
pub struct PluginConfig {
    pub smtp_host: String,
    pub smtp_port: u16,
    pub username: String,
    pub password: String,
    pub default_from: String,
    pub imap_host: Option<String>,
    pub imap_port: u16,
}

/// Host-side state of a client resource.
pub struct MailClientHandle {
    pub config: PluginConfig,
}

/// What the guest passes to the constructor of a client.
pub struct MailConfig {
    pub smtp_host: String,
    pub smtp_port: Option<u16>,
    pub username: String,
    pub password: String,
    pub default_from: String,
    pub imap_host: Option<String>,
}

pub enum MailError {
    InvalidAddress(String),
    SendFailed(String),
    Internal(String),
}

pub enum MailErrorView {
    InvalidAddress(Seq<char>),
    SendFailed(Seq<char>),
    Internal(Seq<char>),
}

impl MailError {
    pub open spec fn view(&self) -> MailErrorView {
        match self {
            MailError::InvalidAddress(m) => MailErrorView::InvalidAddress(m@),
            MailError::SendFailed(m) => MailErrorView::SendFailed(m@),
            MailError::Internal(m) => MailErrorView::Internal(m@),
        }
    }
}

/// An address, perhaps with a name.
pub struct Mailbox {
    pub name: Option<String>,
    pub user: String,
    pub domain: String,
}

pub struct MailboxView {
    pub name: Option<Seq<char>>,
    pub user: Seq<char>,
    pub domain: Seq<char>,
}

impl Mailbox {
    pub open spec fn view(&self) -> MailboxView {
        MailboxView { name: opt_view(self.name), user: self.user@, domain: self.domain@ }
    }
}

pub open spec fn boxes(v: Seq<Mailbox>) -> Seq<MailboxView> {
    v.map_values(|m: Mailbox| m@)
}

pub open spec fn mailbox_result(r: Result<Mailbox, String>) -> Result<MailboxView, Seq<char>> {
    match r {
        Ok(m) => Ok(m@),
        Err(e) => Err(e@),
    }
}

pub open spec fn boxes_result(r: Result<Vec<Mailbox>, String>) -> Result<
    Seq<MailboxView>,
    Seq<char>,
> {
    match r {
        Ok(v) => Ok(boxes(v@)),
        Err(e) => Err(e@),
    }
}

/// The mailbox that `lettre` reads out of a text, or the message of its error.
pub uninterp spec fn mailbox_of(text: Seq<char>) -> Result<MailboxView, Seq<char>>;

/// `lettre::message::Mailbox::from_str`; its result is known by the name `mailbox_of` only.
#[verifier::external_body]
fn parse_mailbox(text: &str) -> (r: Result<Mailbox, String>)
    ensures
        mailbox_result(r) == mailbox_of(text@),
{
    match text.parse::<lettre::message::Mailbox>() {
        Ok(m) => Ok(Mailbox {
            user: m.email.user().to_string(),
            domain: m.email.domain().to_string(),
            name: m.name,
        }),
        Err(e) => Err(e.to_string()),
    }
}

// ---- Addresses ----

/// The pieces of a comma-separated list, trimmed, without the empty ones.
pub open spec fn address_texts(pieces: Seq<Seq<char>>) -> Seq<Seq<char>>
    decreases pieces.len(),
{
    if pieces.len() == 0 {
        pieces
    } else {
        let t = trimmed(pieces.last());
        if t.len() == 0 {
            address_texts(pieces.drop_last())
        } else {
            address_texts(pieces.drop_last()).push(t)
        }
    }
}

pub open spec fn invalid_address(text: Seq<char>, error: Seq<char>) -> Seq<char> {
    "invalid address '"@ + text + "': "@ + error
}

/// The mailboxes of a list of texts, given what each text was read as; the first failure decides.
pub open spec fn gathered(
    texts: Seq<Seq<char>>,
    outcomes: Seq<Result<MailboxView, Seq<char>>>,
) -> Result<Seq<MailboxView>, Seq<char>>
    decreases texts.len(),
{
    if texts.len() == 0 {
        Ok(Seq::<MailboxView>::empty())
    } else {
        match gathered(texts.drop_last(), outcomes.drop_last()) {
            Err(e) => Err(e),
            Ok(l) => match outcomes.last() {
                Ok(m) => Ok(l.push(m)),
                Err(e) => Err(invalid_address(texts.last(), e)),
            },
        }
    }
}

/// The mailboxes of a list that has at least one.
pub open spec fn some_gathered(
    texts: Seq<Seq<char>>,
    outcomes: Seq<Result<MailboxView, Seq<char>>>,
) -> Result<Seq<MailboxView>, Seq<char>> {
    if texts.len() == 0 {
        Err("no valid addresses provided"@)
    } else {
        gathered(texts, outcomes)
    }
}

/// What `lettre` makes of each text.
pub open spec fn outcomes_of(texts: Seq<Seq<char>>) -> Seq<Result<MailboxView, Seq<char>>> {
    texts.map_values(|t: Seq<char>| mailbox_of(t))
}

/// The mailboxes of a comma-separated list.
pub open spec fn parsed_addresses(addrs: Seq<char>) -> Result<Seq<MailboxView>, Seq<char>> {
    let texts = address_texts(split_at_char(addrs, ','));
    some_gathered(texts, outcomes_of(texts))
}

pub open spec fn outcome_views(v: Seq<Result<Mailbox, String>>) -> Seq<
    Result<MailboxView, Seq<char>>,
> {
    v.map_values(|r: Result<Mailbox, String>| mailbox_result(r))
}

/// The addresses of a comma-separated list, as texts.
pub fn address_list(addrs: &str) -> (r: Vec<String>)
    ensures
        views(r@) == address_texts(split_at_char(addrs@, ',')),
{
    let pieces = split_char(addrs, ',');
    let mut out: Vec<String> = Vec::new();
    let mut i: usize = 0;
    assert(views(out@) =~= address_texts(views(pieces@).take(0)));
    while i < pieces.len()
        invariant
            i <= pieces@.len(),
            views(out@) == address_texts(views(pieces@).take(i as int)),
        decreases pieces@.len() - i,
    {
        assert(views(pieces@).take(i + 1).drop_last() == views(pieces@).take(i as int));
        assert(views(pieces@)[i as int] == pieces@[i as int]@);
        let t = trim(&pieces[i]);
        if !t.as_str().is_empty() {
            let ghost before = out@;
            out.push(t);
            assert(views(out@) =~= views(before).push(t@));
        }
        i = i + 1;
    }
    assert(views(pieces@).take(pieces@.len() as int) == views(pieces@));
    out
}

proof fn lemma_gathered_len(texts: Seq<Seq<char>>, outcomes: Seq<Result<MailboxView, Seq<char>>>)
    requires
        texts.len() == outcomes.len(),
    ensures
        match gathered(texts, outcomes) {
            Ok(l) => l.len() == texts.len(),
            Err(_) => true,
        },
    decreases texts.len(),
{
    if texts.len() > 0 {
        lemma_gathered_len(texts.drop_last(), outcomes.drop_last());
    }
}

proof fn lemma_gathered_fails(
    texts: Seq<Seq<char>>,
    outcomes: Seq<Result<MailboxView, Seq<char>>>,
    i: int,
)
    requires
        texts.len() == outcomes.len(),
        0 <= i <= texts.len(),
        gathered(texts.take(i), outcomes.take(i)) is Err,
    ensures
        gathered(texts, outcomes) == gathered(texts.take(i), outcomes.take(i)),
    decreases texts.len() - i,
{
    if i == texts.len() {
        assert(texts.take(i) == texts);
        assert(outcomes.take(i) == outcomes);
    } else {
        assert(texts.take(i + 1).drop_last() == texts.take(i));
        assert(outcomes.take(i + 1).drop_last() == outcomes.take(i));
        lemma_gathered_fails(texts, outcomes, i + 1);
    }
}

/// The mailboxes of a list of texts, given what each text was read as.
#[verifier::loop_isolation(false)]
pub fn gather_addresses(texts: &Vec<String>, outcomes: Vec<Result<Mailbox, String>>) -> (r: Result<
    Vec<Mailbox>,
    String,
>)
    requires
        texts@.len() == outcomes@.len(),
    ensures
        boxes_result(r) == some_gathered(views(texts@), outcome_views(outcomes@)),
{
    if texts.len() == 0 {
        return Err("no valid addresses provided".to_owned());
    }
    let ghost ts = views(texts@);
    let ghost os = outcome_views(outcomes@);
    let ghost all = outcomes@;
    let mut rest = outcomes;
    let mut out: Vec<Mailbox> = Vec::new();
    let mut i: usize = 0;
    assert(boxes(out@) =~= Seq::<MailboxView>::empty());
    assert(all.skip(0) == all);
    while i < texts.len()
        invariant
            i <= texts@.len(),
            texts@.len() == all.len(),
            rest@ == all.skip(i as int),
            ts == views(texts@),
            os == outcome_views(all),
            gathered(ts.take(i as int), os.take(i as int)) == Ok::<Seq<MailboxView>, Seq<char>>(
                boxes(out@),
            ),
        decreases texts@.len() - i,
    {
        assert(ts.take(i + 1).drop_last() == ts.take(i as int));
        assert(os.take(i + 1).drop_last() == os.take(i as int));
        let o = rest.remove(0);
        assert(o == all[i as int]);
        assert(os[i as int] == mailbox_result(o));
        assert(ts[i as int] == texts@[i as int]@);
        assert(rest@ =~= all.skip(i + 1));
        match o {
            Err(e) => {
                proof {
                    lemma_gathered_fails(ts, os, i + 1);
                }
                return Err(cat4("invalid address '", &texts[i], "': ", &e));
            },
            Ok(m) => {
                let ghost before = out@;
                out.push(m);
                assert(boxes(out@) =~= boxes(before).push(m@));
            },
        }
        i = i + 1;
    }
    assert(ts.take(ts.len() as int) == ts);
    assert(os.take(os.len() as int) == os);
    Ok(out)
}

/// Reads a comma-separated list of addresses; blank pieces are passed over, and at least one
/// address is asked for.
pub fn parse_addresses(addrs: &str) -> (r: Result<Vec<Mailbox>, String>)
    ensures
        boxes_result(r) == parsed_addresses(addrs@),
{
    let texts = address_list(addrs);
    let mut outcomes: Vec<Result<Mailbox, String>> = Vec::new();
    let mut i: usize = 0;
    let ghost want = outcomes_of(views(texts@));
    while i < texts.len()
        invariant
            i <= texts@.len(),
            want == outcomes_of(views(texts@)),
            outcome_views(outcomes@) == want.take(i as int),
        decreases texts@.len() - i,
    {
        let o = parse_mailbox(&texts[i]);
        let ghost before = outcomes@;
        outcomes.push(o);
        assert(outcome_views(outcomes@) =~= outcome_views(before).push(mailbox_result(o)));
        assert(want[i as int] == mailbox_of(views(texts@)[i as int]));
        assert(want.take(i + 1) =~= want.take(i as int).push(want[i as int]));
        i = i + 1;
    }
    assert(want.take(want.len() as int) == want);
    assert(outcomes@.len() == outcome_views(outcomes@).len());
    gather_addresses(&texts, outcomes)
}

// ---- Sending ----

pub enum MailBody {
    /// One part.
    Single(String),
    /// A plain text and an HTML part, as alternatives.
    Alternative { text: String, html: String },
}

pub enum MailBodyView {
    Single(Seq<char>),
    Alternative { text: Seq<char>, html: Seq<char> },
}

impl MailBody {
    pub open spec fn view(&self) -> MailBodyView {
        match self {
            MailBody::Single(t) => MailBodyView::Single(t@),
            MailBody::Alternative { text, html } => MailBodyView::Alternative {
                text: text@,
                html: html@,
            },
        }
    }
}

/// A mail ready to be built and sent.
pub struct OutgoingMail {
    pub from: Mailbox,
    pub to: Vec<Mailbox>,
    pub cc: Vec<Mailbox>,
    pub bcc: Vec<Mailbox>,
    pub subject: String,
    pub body: MailBody,
}

pub struct OutgoingMailView {
    pub from: MailboxView,
    pub to: Seq<MailboxView>,
    pub cc: Seq<MailboxView>,
    pub bcc: Seq<MailboxView>,
    pub subject: Seq<char>,
    pub body: MailBodyView,
}

impl OutgoingMail {
    pub open spec fn view(&self) -> OutgoingMailView {
        OutgoingMailView {
            from: self.from@,
            to: boxes(self.to@),
            cc: boxes(self.cc@),
            bcc: boxes(self.bcc@),
            subject: self.subject@,
            body: self.body@,
        }
    }
}

pub open spec fn outgoing_result(r: Result<OutgoingMail, MailError>) -> Result<
    OutgoingMailView,
    MailErrorView,
> {
    match r {
        Ok(m) => Ok(m@),
        Err(e) => Err(e@),
    }
}

/// The addresses of an optional list: none where the list is missing or empty.
pub open spec fn optional_addresses(o: Option<Seq<char>>) -> Result<Seq<MailboxView>, Seq<char>> {
    match o {
        Some(s) => if s.len() > 0 {
            parsed_addresses(s)
        } else {
            Ok(Seq::<MailboxView>::empty())
        },
        None => Ok(Seq::<MailboxView>::empty()),
    }
}

/// The body of a mail; at least one of the two texts is asked for.
pub open spec fn body_of(text: Option<Seq<char>>, html: Option<Seq<char>>) -> Option<MailBodyView> {
    match (text, html) {
        (Some(text), Some(html)) => Some(MailBodyView::Alternative { text, html }),
        (Some(text), None) => Some(MailBodyView::Single(text)),
        (None, Some(html)) => Some(MailBodyView::Single(html)),
        (None, None) => None,
    }
}

/// The mail to send, given what the addresses were read as. The sender, the recipients, the copies,
/// the blind copies and the body are checked in this order.
pub open spec fn composed(
    default_from: Seq<char>,
    from: Result<MailboxView, Seq<char>>,
    to: Result<Seq<MailboxView>, Seq<char>>,
    cc: Result<Seq<MailboxView>, Seq<char>>,
    bcc: Result<Seq<MailboxView>, Seq<char>>,
    subject: Seq<char>,
    text: Option<Seq<char>>,
    html: Option<Seq<char>>,
) -> Result<OutgoingMailView, MailErrorView> {
    match from {
        Err(e) => Err(
            MailErrorView::InvalidAddress("invalid from address '"@ + default_from + "': "@ + e),
        ),
        Ok(from) => match to {
            Err(e) => Err(MailErrorView::InvalidAddress(e)),
            Ok(to) => match cc {
                Err(e) => Err(MailErrorView::InvalidAddress(e)),
                Ok(cc) => match bcc {
                    Err(e) => Err(MailErrorView::InvalidAddress(e)),
                    Ok(bcc) => match body_of(text, html) {
                        None => Err(
                            MailErrorView::InvalidAddress(
                                "either body-text or body-html must be provided"@,
                            ),
                        ),
                        Some(body) => Ok(
                            OutgoingMailView { from, to, cc, bcc, subject, body },
                        ),
                    },
                },
            },
        },
    }
}

/// Composes a mail, given what the addresses were read as.
pub fn compose_mail(
    default_from: &str,
    from: Result<Mailbox, String>,
    to: Result<Vec<Mailbox>, String>,
    cc: Result<Vec<Mailbox>, String>,
    bcc: Result<Vec<Mailbox>, String>,
    subject: &str,
    body_text: Option<String>,
    body_html: Option<String>,
) -> (r: Result<OutgoingMail, MailError>)
    ensures
        outgoing_result(r) == composed(
            default_from@,
            mailbox_result(from),
            boxes_result(to),
            boxes_result(cc),
            boxes_result(bcc),
            subject@,
            opt_view(body_text),
            opt_view(body_html),
        ),
{
    let from = match from {
        Ok(m) => m,
        Err(e) => {
            return Err(
                MailError::InvalidAddress(cat4("invalid from address '", default_from, "': ", &e)),
            );
        },
    };
    let to = match to {
        Ok(v) => v,
        Err(e) => {
            return Err(MailError::InvalidAddress(e));
        },
    };
    let cc = match cc {
        Ok(v) => v,
        Err(e) => {
            return Err(MailError::InvalidAddress(e));
        },
    };
    let bcc = match bcc {
        Ok(v) => v,
        Err(e) => {
            return Err(MailError::InvalidAddress(e));
        },
    };
    let body = match (body_text, body_html) {
        (Some(text), Some(html)) => MailBody::Alternative { text, html },
        (Some(text), None) => MailBody::Single(text),
        (None, Some(html)) => MailBody::Single(html),
        (None, None) => {
            return Err(
                MailError::InvalidAddress(
                    "either body-text or body-html must be provided".to_owned(),
                ),
            );
        },
    };
    Ok(OutgoingMail { from, to, cc, bcc, subject: subject.to_owned(), body })
}

fn parse_optional_addresses(o: &Option<String>) -> (r: Result<Vec<Mailbox>, String>)
    ensures
        boxes_result(r) == optional_addresses(opt_view(*o)),
{
    if let Some(s) = o {
        if !s.as_str().is_empty() {
            return parse_addresses(s);
        }
    }
    let none: Vec<Mailbox> = Vec::new();
    assert(boxes(none@) =~= Seq::<MailboxView>::empty());
    Ok(none)
}

impl MailClientHandle {
    /// The mail that a request to send asks for.
    pub fn send_mail(
        &self,
        to: &str,
        subject: &str,
        body_text: Option<String>,
        body_html: Option<String>,
        cc: Option<String>,
        bcc: Option<String>,
    ) -> (r: Result<OutgoingMail, MailError>)
        ensures
            outgoing_result(r) == composed(
                self.config.default_from@,
                mailbox_of(self.config.default_from@),
                parsed_addresses(to@),
                optional_addresses(opt_view(cc)),
                optional_addresses(opt_view(bcc)),
                subject@,
                opt_view(body_text),
                opt_view(body_html),
            ),
    {
        let from = parse_mailbox(&self.config.default_from);
        let to_addrs = parse_addresses(to);
        let cc_addrs = parse_optional_addresses(&cc);
        let bcc_addrs = parse_optional_addresses(&bcc);
        compose_mail(
            &self.config.default_from,
            from,
            to_addrs,
            cc_addrs,
            bcc_addrs,
            subject,
            body_text,
            body_html,
        )
    }

    /// The IMAP server to connect to, as `host:port`.
    pub fn imap_address(&self) -> (r: Result<String, String>)
        ensures
            match self.config.imap_host {
                Some(h) => r is Ok && r->Ok_0@ == h@ + ":"@ + decimal(
                    self.config.imap_port as nat,
                ),
                None => r is Err && r->Err_0@ == "IMAP host not configured"@,
            },
    {
        match &self.config.imap_host {
            Some(h) => {
                let port = u64_text(self.config.imap_port as u64);
                Ok(cat3(h, ":", &port))
            },
            None => Err("IMAP host not configured".to_owned()),
        }
    }
}

/// The step of sending at which the SMTP transport failed.
pub enum SendStep {
    BuildMail,
    OpenTransport,
    Send,
}

/// The error that the guest is told for a failed step.
pub fn send_error(step: SendStep, message: &str) -> (r: MailError)
    ensures
        r@ == match step {
            SendStep::BuildMail => MailErrorView::SendFailed("failed to build email: "@ + message@),
            SendStep::OpenTransport => MailErrorView::Internal(
                "failed to create SMTP transport: "@ + message@,
            ),
            SendStep::Send => MailErrorView::SendFailed("smtp send failed: "@ + message@),
        },
{
    match step {
        SendStep::BuildMail => MailError::SendFailed(cat2("failed to build email: ", message)),
        SendStep::OpenTransport => MailError::Internal(
            cat2("failed to create SMTP transport: ", message),
        ),
        SendStep::Send => MailError::SendFailed(cat2("smtp send failed: ", message)),
    }
}

// ---- Listing ----

/// What to ask the IMAP server for.
pub struct ListRequest {
    pub mailbox: String,
    pub criteria: String,
    pub limit: u32,
}

/// A listing: `INBOX`, `ALL` and 20 where the guest says nothing else.
pub fn list_request(
    mailbox: Option<String>,
    search_criteria: Option<String>,
    limit: Option<u32>,
) -> (r: ListRequest)
    ensures
        r.mailbox@ == match mailbox {
            Some(m) => m@,
            None => "INBOX"@,
        },
        r.criteria@ == match search_criteria {
            Some(c) => c@,
            None => "ALL"@,
        },
        r.limit == match limit {
            Some(n) => n,
            None => 20,
        },
{
    ListRequest {
        mailbox: match mailbox {
            Some(m) => m,
            None => "INBOX".to_owned(),
        },
        criteria: match search_criteria {
            Some(c) => c,
            None => "ALL".to_owned(),
        },
        limit: match limit {
            Some(n) => n,
            None => 20,
        },
    }
}

/// The numbers stand in ascending order.
pub open spec fn ascending(s: Seq<u32>) -> bool {
    forall|i: int, j: int| 0 <= i < j < s.len() ==> (#[trigger] s[i]) <= (#[trigger] s[j])
}

/// `r` holds the `n` greatest of the numbers `s`, or all of them where there are fewer, in ascending
/// order: none that is left out is greater than one that is taken.
pub open spec fn greatest(r: Seq<u32>, s: Seq<u32>, n: nat) -> bool {
    &&& ascending(r)
    &&& r.len() == if s.len() <= n {
        s.len()
    } else {
        n
    }
    &&& exists|rest: Seq<u32>| #[trigger]
        left_out(rest, r, s)
}

/// `rest` is what `r` leaves out of `s`, none of it greater than an item of `r`.
pub open spec fn left_out(rest: Seq<u32>, r: Seq<u32>, s: Seq<u32>) -> bool {
    &&& (rest + r).to_multiset() == s.to_multiset()
    &&& forall|i: int, j: int|
        0 <= i < rest.len() && 0 <= j < r.len() ==> (#[trigger] rest[i]) <= (#[trigger] r[j])
}

/// The numbers in ascending order.
fn sort_uids(uids: &Vec<u32>) -> (r: Vec<u32>)
    ensures
        ascending(r@),
        r@.to_multiset() == uids@.to_multiset(),
        r@.len() == uids@.len(),
{
    let mut out: Vec<u32> = Vec::new();
    let mut i: usize = 0;
    proof {
        assert(uids@.take(0) =~= out@);
    }
    while i < uids.len()
        invariant
            i <= uids@.len(),
            out@.len() == i,
            ascending(out@),
            out@.to_multiset() == uids@.take(i as int).to_multiset(),
        decreases uids@.len() - i,
    {
        let u = uids[i];
        let mut at: usize = 0;
        while at < out.len() && out[at] <= u
            invariant
                at <= out@.len(),
                forall|k: int| 0 <= k < at ==> out@[k] <= u,
            decreases out@.len() - at,
        {
            at = at + 1;
        }
        let ghost before = out@;
        out.insert(at, u);
        proof {
            assert(out@ == before.insert(at as int, u));
            out@.to_multiset_ensures();
            uids@.take(i as int).to_multiset_ensures();
            assert(uids@.take(i + 1) =~= uids@.take(i as int).push(u));
            assert(out@.remove(at as int) =~= before);
            assert(out@[at as int] == u);
            assert(out@.contains(u));
            assert(out@.to_multiset() =~= before.to_multiset().insert(u));
            assert forall|k: int, l: int| 0 <= k < l < out@.len() implies (#[trigger] out@[k]) <= (
            #[trigger] out@[l]) by {
                if at < before.len() {
                    assert(before[at as int] > u);
                }
            }
        }
        i = i + 1;
    }
    proof {
        assert(uids@.take(uids@.len() as int) =~= uids@);
    }
    out
}

/// The most recent messages of a search result, which comes in any order: those with the greatest
/// numbers, at most `limit` of them.
pub fn recent_uids(uids: &Vec<u32>, limit: u32) -> (r: Vec<u32>)
    ensures
        greatest(r@, uids@, limit as nat),
{
    let sorted = sort_uids(uids);
    let n: usize = sorted.len();
    let start: usize = if n as u64 <= limit as u64 {
        0
    } else {
        n - limit as usize
    };
    let mut out: Vec<u32> = Vec::new();
    let mut i: usize = start;
    while i < n
        invariant
            start <= i <= n,
            n == sorted@.len(),
            out@ == sorted@.subrange(start as int, i as int),
        decreases n - i,
    {
        out.push(sorted[i]);
        i = i + 1;
        assert(sorted@.subrange(start as int, i as int) =~= sorted@.subrange(
            start as int,
            i - 1,
        ).push(sorted@[i - 1]));
    }
    proof {
        let rest = sorted@.take(start as int);
        assert(rest + out@ =~= sorted@);
        assert(left_out(rest, out@, uids@));
    }
    out
}

pub open spec fn uid_texts(uids: Seq<u32>) -> Seq<Seq<char>> {
    uids.map_values(|u: u32| decimal(u as nat))
}

/// The set of messages to fetch: the numbers joined by commas.
pub fn uid_set(uids: &Vec<u32>) -> (r: String)
    ensures
        r@ == joined(uid_texts(uids@), ","@),
{
    let mut texts: Vec<String> = Vec::new();
    let mut i: usize = 0;
    while i < uids.len()
        invariant
            i <= uids@.len(),
            views(texts@) == uid_texts(uids@).take(i as int),
        decreases uids@.len() - i,
    {
        let t = u64_text(uids[i] as u64);
        let ghost before = texts@;
        texts.push(t);
        assert(views(texts@) =~= views(before).push(t@));
        assert(uid_texts(uids@).take(i + 1) =~= uid_texts(uids@).take(i as int).push(
            uid_texts(uids@)[i as int],
        ));
        i = i + 1;
    }
    assert(uid_texts(uids@).take(uids@.len() as int) == uid_texts(uids@));
    join(&texts, ",")
}

/// An address of an IMAP envelope.
pub struct EnvelopeAddress {
    pub name: Option<Vec<u8>>,
    pub mailbox: Option<Vec<u8>>,
    pub host: Option<Vec<u8>>,
}

/// A message as the IMAP server lists it.
pub struct FetchedMail {
    pub uid: Option<u32>,
    pub subject: Option<Vec<u8>>,
    pub from: Option<EnvelopeAddress>,
    pub date: Option<Vec<u8>>,
    pub flags: Vec<String>,
}

/// A message as the guest sees it in a listing.
pub struct MailEntry {
    pub uid: String,
    pub subject: String,
    pub from: String,
    pub date: String,
    pub flags: Vec<String>,
}

/// The text of optional bytes; empty where there are none.
pub open spec fn opt_lossy(b: Option<Vec<u8>>) -> Seq<char> {
    match b {
        Some(v) => lossy_text(v@),
        None => Seq::<char>::empty(),
    }
}

fn lossy_or_empty(b: &Option<Vec<u8>>) -> (r: String)
    ensures
        r@ == opt_lossy(*b),
{
    match b {
        Some(v) => from_utf8_lossy(v.as_slice()),
        None => String::new(),
    }
}

/// An address as one text: the name and a blank where there is a name, the mailbox, and `@` and the
/// host where there is a host.
pub open spec fn address_line(
    name: Option<Seq<char>>,
    mailbox: Seq<char>,
    host: Option<Seq<char>>,
) -> Seq<char> {
    (match name {
        Some(n) => n + " "@,
        None => Seq::<char>::empty(),
    }) + mailbox + (match host {
        Some(h) => "@"@ + h,
        None => Seq::<char>::empty(),
    })
}

pub fn format_address(name: &Option<String>, mailbox: &str, host: &Option<String>) -> (r: String)
    ensures
        r@ == address_line(opt_view(*name), mailbox@, opt_view(*host)),
{
    let n = match name {
        Some(n) => cat2(n, " "),
        None => String::new(),
    };
    let h = match host {
        Some(h) => cat2("@", h),
        None => String::new(),
    };
    cat3(&n, mailbox, &h)
}

pub open spec fn opt_lossy_view(b: Option<Vec<u8>>) -> Option<Seq<char>> {
    match b {
        Some(v) => Some(lossy_text(v@)),
        None => None,
    }
}

/// `e` is how the guest sees `m`.
pub open spec fn entry_for(e: MailEntry, m: FetchedMail) -> bool {
    &&& e.uid@ == uid_view(m.uid)
    &&& e.subject@ == opt_lossy(m.subject)
    &&& e.from@ == match m.from {
        Some(a) => address_line(opt_lossy_view(a.name), opt_lossy(a.mailbox), opt_lossy_view(a.host)),
        None => Seq::<char>::empty(),
    }
    &&& e.date@ == opt_lossy(m.date)
    &&& e.flags@ == m.flags@
}

fn opt_from_utf8_lossy(b: &Option<Vec<u8>>) -> (r: Option<String>)
    ensures
        opt_view(r) == opt_lossy_view(*b),
{
    match b {
        Some(v) => Some(from_utf8_lossy(v.as_slice())),
        None => None,
    }
}

/// A listed message with its bytes read as text.
pub fn mail_entry(m: &FetchedMail) -> (r: MailEntry)
    ensures
        entry_for(r, *m),
{
    let uid = match m.uid {
        Some(u) => u64_text(u as u64),
        None => String::new(),
    };
    let from = match &m.from {
        Some(a) => {
            let name = opt_from_utf8_lossy(&a.name);
            let mailbox = lossy_or_empty(&a.mailbox);
            let host = opt_from_utf8_lossy(&a.host);
            format_address(&name, &mailbox, &host)
        },
        None => String::new(),
    };
    MailEntry {
        uid,
        subject: lossy_or_empty(&m.subject),
        from,
        date: lossy_or_empty(&m.date),
        flags: crate::text::copy_strings(&m.flags),
    }
}

pub open spec fn quoted_all(v: Seq<Seq<char>>) -> Seq<Seq<char>> {
    v.map_values(|s: Seq<char>| quoted(s))
}

/// The JSON text of a listed message.
pub open spec fn listed_text(
    uid: Seq<char>,
    subject: Seq<char>,
    from: Seq<char>,
    date: Seq<char>,
    flags: Seq<Seq<char>>,
) -> Seq<char> {
    object_text(
        seq![
            ("uid"@, quoted(uid)),
            ("subject"@, quoted(subject)),
            ("from"@, quoted(from)),
            ("date"@, quoted(date)),
            ("flags"@, array_text(quoted_all(flags))),
        ],
    )
}

/// The JSON text of an entry.
pub open spec fn entry_json(e: MailEntry) -> Seq<char> {
    listed_text(e.uid@, e.subject@, e.from@, e.date@, views(e.flags@))
}

pub fn quote_all(v: &Vec<String>) -> (r: Vec<String>)
    ensures
        views(r@) == quoted_all(views(v@)),
{
    let mut out: Vec<String> = Vec::new();
    let mut i: usize = 0;
    let ghost want = quoted_all(views(v@));
    while i < v.len()
        invariant
            i <= v@.len(),
            want == quoted_all(views(v@)),
            views(out@) == want.take(i as int),
        decreases v@.len() - i,
    {
        let q = quote(&v[i]);
        let ghost before = out@;
        out.push(q);
        assert(views(out@) =~= views(before).push(q@));
        assert(want[i as int] == quoted(views(v@)[i as int]));
        assert(want.take(i + 1) =~= want.take(i as int).push(want[i as int]));
        i = i + 1;
    }
    assert(want.take(want.len() as int) == want);
    out
}

fn entry_text(e: &MailEntry) -> (r: String)
    ensures
        r@ == entry_json(*e),
{
    let flags = quote_all(&e.flags);
    let mut m: Vec<(String, String)> = Vec::new();
    m.push(("uid".to_owned(), quote(&e.uid)));
    m.push(("subject".to_owned(), quote(&e.subject)));
    m.push(("from".to_owned(), quote(&e.from)));
    m.push(("date".to_owned(), quote(&e.date)));
    m.push(("flags".to_owned(), write_array(&flags)));
    assert(member_views(m@) =~= seq![
        ("uid"@, quoted(e.uid@)),
        ("subject"@, quoted(e.subject@)),
        ("from"@, quoted(e.from@)),
        ("date"@, quoted(e.date@)),
        ("flags"@, array_text(quoted_all(views(e.flags@)))),
    ]);
    write_object(&m)
}

pub open spec fn entries_json(v: Seq<MailEntry>) -> Seq<Seq<char>> {
    v.map_values(|e: MailEntry| entry_json(e))
}

/// The listing as the guest gets it: a JSON array of entries.
pub fn mail_list_json(entries: &Vec<MailEntry>) -> (r: String)
    ensures
        r@ == array_text(entries_json(entries@)),
{
    let mut out: Vec<String> = Vec::new();
    let mut i: usize = 0;
    let ghost want = entries_json(entries@);
    while i < entries.len()
        invariant
            i <= entries@.len(),
            want == entries_json(entries@),
            views(out@) == want.take(i as int),
        decreases entries@.len() - i,
    {
        let t = entry_text(&entries[i]);
        let ghost before = out@;
        out.push(t);
        assert(views(out@) =~= views(before).push(t@));
        assert(want.take(i + 1) =~= want.take(i as int).push(want[i as int]));
        i = i + 1;
    }
    assert(want.take(want.len() as int) == want);
    write_array(&out)
}

/// The step of an IMAP session that failed.
pub enum ImapStep {
    Select,
    Search,
    Fetch,
    Collect,
}

pub open spec fn step_error(step: ImapStep, mailbox: Seq<char>, message: Seq<char>) -> MailErrorView {
    MailErrorView::Internal(
        match step {
            ImapStep::Select => "failed to select mailbox '"@ + mailbox + "': "@ + message,
            ImapStep::Search => "IMAP search failed: "@ + message,
            ImapStep::Fetch => "IMAP fetch failed: "@ + message,
            ImapStep::Collect => "IMAP fetch collect failed: "@ + message,
        },
    )
}

/// The error with which a call fails where a step of its session fails.
pub fn imap_error(step: ImapStep, mailbox: &str, message: &str) -> (r: MailError)
    ensures
        r@ == step_error(step, mailbox@, message@),
{
    MailError::Internal(
        match step {
            ImapStep::Select => cat4("failed to select mailbox '", mailbox, "': ", message),
            ImapStep::Search => cat2("IMAP search failed: ", message),
            ImapStep::Fetch => cat2("IMAP fetch failed: ", message),
            ImapStep::Collect => cat2("IMAP fetch collect failed: ", message),
        },
    )
}

/// What came of a session with an IMAP server.
pub enum ImapOutcome<T> {
    /// No session was opened, for this reason.
    NotConnected(String),
    /// A step in a mailbox failed.
    StepFailed { step: ImapStep, mailbox: String, message: String },
    Done(T),
}

/// How the guest sees a listed message, as JSON.
pub open spec fn listed_json(m: FetchedMail) -> Seq<char> {
    listed_text(
        uid_view(m.uid),
        opt_lossy(m.subject),
        match m.from {
            Some(a) => address_line(
                opt_lossy_view(a.name),
                opt_lossy(a.mailbox),
                opt_lossy_view(a.host),
            ),
            None => Seq::<char>::empty(),
        },
        opt_lossy(m.date),
        views(m.flags@),
    )
}

pub open spec fn listing_json(v: Seq<FetchedMail>) -> Seq<Seq<char>> {
    v.map_values(|m: FetchedMail| listed_json(m))
}

/// Answers a request for a listing. The guest is told where no session was opened; the call itself
/// fails where a step of the session fails.
pub fn list_mails(outcome: ImapOutcome<Vec<FetchedMail>>) -> (r: Result<
    Result<String, MailError>,
    MailError,
>)
    ensures
        match outcome {
            ImapOutcome::NotConnected(e) => r is Ok && r->Ok_0 is Err && r->Ok_0->Err_0@
                == MailErrorView::Internal(e@),
            ImapOutcome::StepFailed { step, mailbox, message } => r is Err && r->Err_0@
                == step_error(step, mailbox@, message@),
            ImapOutcome::Done(v) => r is Ok && r->Ok_0 is Ok && r->Ok_0->Ok_0@ == array_text(
                listing_json(v@),
            ),
        },
{
    let fetched = match outcome {
        ImapOutcome::NotConnected(e) => {
            return Ok(Err(MailError::Internal(e)));
        },
        ImapOutcome::StepFailed { step, mailbox, message } => {
            return Err(imap_error(step, &mailbox, &message));
        },
        ImapOutcome::Done(v) => v,
    };
    let mut entries: Vec<MailEntry> = Vec::new();
    let mut i: usize = 0;
    while i < fetched.len()
        invariant
            i <= fetched@.len(),
            entries@.len() == i,
            forall|k: int| 0 <= k < i ==> entry_for(#[trigger] entries@[k], fetched@[k]),
        decreases fetched@.len() - i,
    {
        entries.push(mail_entry(&fetched[i]));
        i = i + 1;
    }
    proof {
        assert forall|k: int| 0 <= k < fetched@.len() implies #[trigger] entries_json(entries@)[k]
            == listing_json(fetched@)[k] by {
            assert(entry_for(entries@[k], fetched@[k]));
        }
        assert(entries_json(entries@) =~= listing_json(fetched@));
    }
    Ok(Ok(mail_list_json(&entries)))
}

/// The step of connecting to an IMAP server that failed.
pub enum ConnectStep {
    Reach,
    ServerName,
    Handshake,
    Login,
}

/// Why a server could not be connected to; `name` is its address or its host.
pub fn connect_error(step: ConnectStep, name: &str, message: &str) -> (r: String)
    ensures
        r@ == match step {
            ConnectStep::Reach => "failed to connect to IMAP server '"@ + name@ + "': "@ + message@,
            ConnectStep::ServerName => "invalid IMAP server name '"@ + name@ + "': "@ + message@,
            ConnectStep::Handshake => "TLS handshake failed for IMAP: "@ + message@,
            ConnectStep::Login => "IMAP login failed: "@ + message@,
        },
{
    match step {
        ConnectStep::Reach => cat4("failed to connect to IMAP server '", name, "': ", message),
        ConnectStep::ServerName => cat4("invalid IMAP server name '", name, "': ", message),
        ConnectStep::Handshake => cat2("TLS handshake failed for IMAP: ", message),
        ConnectStep::Login => cat2("IMAP login failed: ", message),
    }
}

// ---- Reading ----

/// A part of a mail; the parts stand in depth-first order, each before the parts inside it.
pub struct MailPart {
    pub content_type: Option<String>,
    /// The decoded body, where it could be decoded.
    pub body: Option<String>,
    /// How many parts this one makes with those inside it, at any depth.
    pub span: usize,
}

pub struct PartView {
    pub content_type: Option<Seq<char>>,
    pub body: Option<Seq<char>>,
    pub span: nat,
}

/// A mail with its headers and its parts.
pub struct ParsedMail {
    pub subject: Option<String>,
    pub from: Option<String>,
    pub to: Option<String>,
    pub date: Option<String>,
    pub parts: Vec<MailPart>,
}

pub struct ParsedMailView {
    pub subject: Option<Seq<char>>,
    pub from: Option<Seq<char>>,
    pub to: Option<Seq<char>>,
    pub date: Option<Seq<char>>,
    pub parts: Seq<PartView>,
}

impl MailPart {
    pub open spec fn view(&self) -> PartView {
        PartView {
            content_type: opt_view(self.content_type),
            body: opt_view(self.body),
            span: self.span as nat,
        }
    }
}

pub open spec fn part_views(v: Seq<MailPart>) -> Seq<PartView> {
    v.map_values(|p: MailPart| p@)
}

impl ParsedMail {
    pub open spec fn view(&self) -> ParsedMailView {
        ParsedMailView {
            subject: opt_view(self.subject),
            from: opt_view(self.from),
            to: opt_view(self.to),
            date: opt_view(self.date),
            parts: part_views(self.parts@),
        }
    }
}

pub open spec fn parsed_result(r: Result<ParsedMail, String>) -> Result<ParsedMailView, Seq<char>> {
    match r {
        Ok(m) => Ok(m@),
        Err(e) => Err(e@),
    }
}

/// What is read of a part of a mail: a value for each of the headers asked for, the decoded body,
/// where it could be decoded, and how many parts it makes with those inside it.
struct ReadPart {
    headers: Vec<Option<String>>,
    body: Option<String>,
    span: usize,
}

spec fn span_result(r: Result<Vec<ReadPart>, String>) -> Result<Seq<nat>, Seq<char>> {
    match r {
        Ok(v) => Ok(v@.map_values(|p: ReadPart| p.span as nat)),
        Err(e) => Err(e@),
    }
}

/// The mail that `mailparse::parse_mail` reads out of bytes: for each part, in depth-first order,
/// how many parts it makes with those inside it; or the message of its error.
pub uninterp spec fn mail_parts_of(raw: Seq<u8>) -> Result<Seq<nat>, Seq<char>>;

/// What `mailparse` gives as the first value of a header in a part of the mail in these bytes.
pub uninterp spec fn part_header_of(raw: Seq<u8>, part: nat, name: Seq<char>) -> Option<Seq<char>>;

/// What `mailparse` gives as the decoded body of a part of the mail in these bytes; none where it
/// cannot be decoded.
pub uninterp spec fn part_body_of(raw: Seq<u8>, part: nat) -> Option<Seq<char>>;

/// `mailparse::parse_mail`, with `parts`, and on each part `get_first_value` for each of the names
/// and `get_body`. The first part is the mail itself, so there is at least one. What the calls
/// return is known by the names `mail_parts_of`, `part_header_of` and `part_body_of` only.
#[verifier::external_body]
fn read_parts(raw: &[u8], names: &Vec<&'static str>) -> (r: Result<Vec<ReadPart>, String>)
    ensures
        span_result(r) == mail_parts_of(raw@),
        r is Ok ==> r->Ok_0@.len() >= 1,
        forall|i: int|
            r is Ok && 0 <= i < r->Ok_0@.len() ==> (#[trigger] r->Ok_0@[i]).headers@.len()
                == names@.len() && opt_view(r->Ok_0@[i].body) == part_body_of(raw@, i as nat),
        forall|i: int, n: int|
            r is Ok && 0 <= i < r->Ok_0@.len() && 0 <= n < names@.len() ==> opt_view(
                #[trigger] r->Ok_0@[i].headers@[n],
            ) == part_header_of(raw@, i as nat, names@[n]@),
{
    mailparse::parse_mail(raw).map_err(|e| e.to_string()).map(|p| p.parts().map(|q| ReadPart {
        headers: names.iter().map(|name| q.headers.get_first_value(name)).collect(),
        body: q.get_body().ok(),
        span: q.parts().count(),
    }).collect())
}

/// The part of a mail at a place in depth-first order.
pub open spec fn part_of(raw: Seq<u8>, i: nat, span: nat) -> PartView {
    PartView {
        content_type: part_header_of(raw, i, "Content-Type"@),
        body: part_body_of(raw, i),
        span,
    }
}

/// The mail in these bytes, or the message why there is none.
pub open spec fn mail_of(raw: Seq<u8>) -> Result<ParsedMailView, Seq<char>> {
    match mail_parts_of(raw) {
        Err(e) => Err(e),
        Ok(spans) => Ok(
            ParsedMailView {
                subject: part_header_of(raw, 0, "Subject"@),
                from: part_header_of(raw, 0, "From"@),
                to: part_header_of(raw, 0, "To"@),
                date: part_header_of(raw, 0, "Date"@),
                parts: Seq::new(spans.len(), |i: int| part_of(raw, i as nat, spans[i])),
            },
        ),
    }
}

/// Reads a mail with its headers and its parts.
pub fn parse_mail(raw: &[u8]) -> (r: Result<ParsedMail, String>)
    ensures
        parsed_result(r) == mail_of(raw@),
{
    let mut names: Vec<&'static str> = Vec::new();
    names.push("Subject");
    names.push("From");
    names.push("To");
    names.push("Date");
    names.push("Content-Type");
    let read = match read_parts(raw, &names) {
        Ok(v) => v,
        Err(e) => {
            return Err(e);
        },
    };
    let ghost spans = mail_parts_of(raw@)->Ok_0;
    let ghost want = Seq::new(spans.len(), |i: int| part_of(raw@, i as nat, spans[i]));
    assert(spans == read@.map_values(|p: ReadPart| p.span as nat));
    let subject = copy_opt(&read[0].headers[0]);
    let from = copy_opt(&read[0].headers[1]);
    let to = copy_opt(&read[0].headers[2]);
    let date = copy_opt(&read[0].headers[3]);
    let mut parts: Vec<MailPart> = Vec::new();
    let mut i: usize = 0;
    while i < read.len()
        invariant
            i <= read@.len(),
            spans == read@.map_values(|p: ReadPart| p.span as nat),
            want == Seq::new(spans.len(), |i: int| part_of(raw@, i as nat, spans[i])),
            names@.len() == 5,
            names@[4]@ == "Content-Type"@,
            forall|k: int|
                0 <= k < read@.len() ==> (#[trigger] read@[k]).headers@.len() == 5 && opt_view(
                    read@[k].body,
                ) == part_body_of(raw@, k as nat),
            forall|k: int, n: int|
                0 <= k < read@.len() && 0 <= n < 5 ==> opt_view(#[trigger] read@[k].headers@[n])
                    == part_header_of(raw@, k as nat, names@[n]@),
            part_views(parts@) == want.take(i as int),
        decreases read@.len() - i,
    {
        let part = MailPart {
            content_type: copy_opt(&read[i].headers[4]),
            body: copy_opt(&read[i].body),
            span: read[i].span,
        };
        let ghost before = parts@;
        assert(part@ == want[i as int]);
        parts.push(part);
        assert(part_views(parts@) =~= part_views(before).push(want[i as int]));
        assert(want.take(i + 1) =~= want.take(i as int).push(want[i as int]));
        i = i + 1;
    }
    assert(want.take(want.len() as int) == want);
    Ok(ParsedMail { subject, from, to, date, parts })
}

#[derive(Clone, Copy, Debug, PartialEq, Eq, Structural)]
pub enum PartKind {
    Plain,
    Html,
    Multipart,
    Other,
}

/// The kind of a part by its content type in lower case.
pub open spec fn kind_of(lower: Seq<char>) -> PartKind {
    if "text/plain"@.is_prefix_of(lower) {
        PartKind::Plain
    } else if "text/html"@.is_prefix_of(lower) {
        PartKind::Html
    } else if "multipart/"@.is_prefix_of(lower) {
        PartKind::Multipart
    } else {
        PartKind::Other
    }
}

pub fn part_kind(lower: &str) -> (r: PartKind)
    ensures
        r == kind_of(lower@),
{
    if starts_with(lower, "text/plain") {
        PartKind::Plain
    } else if starts_with(lower, "text/html") {
        PartKind::Html
    } else if starts_with(lower, "multipart/") {
        PartKind::Multipart
    } else {
        PartKind::Other
    }
}

/// The bodies of a mail found so far.
pub struct Bodies {
    pub text: Option<String>,
    pub html: Option<String>,
    pub content_type: String,
}

pub struct BodiesView {
    pub text: Option<Seq<char>>,
    pub html: Option<Seq<char>>,
    pub content_type: Seq<char>,
}

impl Bodies {
    pub open spec fn view(&self) -> BodiesView {
        BodiesView {
            text: opt_view(self.text),
            html: opt_view(self.html),
            content_type: self.content_type@,
        }
    }
}

/// The bodies after a part that is no multipart: a text or HTML body that could be decoded takes
/// the place of an earlier one.
pub open spec fn with_part(b: BodiesView, kind: PartKind, body: Option<Seq<char>>) -> BodiesView {
    match (kind, body) {
        (PartKind::Plain, Some(t)) => BodiesView {
            text: Some(t),
            html: b.html,
            content_type: "text/plain"@,
        },
        (PartKind::Html, Some(t)) => BodiesView {
            text: b.text,
            html: Some(t),
            content_type: "text/html"@,
        },
        _ => b,
    }
}

/// Where the parts after one and those inside it begin.
pub open spec fn after_part(i: int, p: PartView) -> int {
    if p.span == 0 {
        i + 1
    } else {
        i + p.span
    }
}

/// The bodies after the parts from `i` on: a multipart is entered, any other part is taken with
/// all that stands inside it.
pub open spec fn bodies_from(
    parts: Seq<PartView>,
    kinds: Seq<PartKind>,
    i: int,
    b: BodiesView,
) -> BodiesView
    decreases
            (if i < parts.len() {
                parts.len() - i
            } else {
                0
            }),
{
    if i < 0 || i >= parts.len() {
        b
    } else if kinds[i] == PartKind::Multipart {
        bodies_from(parts, kinds, i + 1, b)
    } else {
        bodies_from(
            parts,
            kinds,
            after_part(i, parts[i]),
            with_part(b, kinds[i], parts[i].body),
        )
    }
}

pub open spec fn no_bodies() -> BodiesView {
    BodiesView { text: None, html: None, content_type: "text/plain"@ }
}

/// The kinds of parts by their content types.
pub open spec fn kinds_of(parts: Seq<PartView>) -> Seq<PartKind> {
    parts.map_values(
        |p: PartView| kind_of(
            lowercase(
                match p.content_type {
                    Some(c) => c,
                    None => Seq::<char>::empty(),
                },
            ),
        ),
    )
}

/// The text and HTML bodies of a mail, given the kind of each of its parts.
pub fn extract_bodies(parts: &Vec<MailPart>, kinds: &Vec<PartKind>) -> (r: Bodies)
    requires
        parts@.len() == kinds@.len(),
    ensures
        r@ == bodies_from(part_views(parts@), kinds@, 0, no_bodies()),
{
    let ghost pv = part_views(parts@);
    let mut b = Bodies { text: None, html: None, content_type: "text/plain".to_owned() };
    let n: usize = parts.len();
    let mut i: usize = 0;
    while i < n
        invariant
            n == parts@.len(),
            n == kinds@.len(),
            pv == part_views(parts@),
            i <= n,
            bodies_from(pv, kinds@, 0, no_bodies()) == bodies_from(pv, kinds@, i as int, b@),
        decreases n - i,
    {
        let p = &parts[i];
        assert(pv[i as int] == p@);
        match kinds[i] {
            PartKind::Multipart => {
                i = i + 1;
            },
            kind => {
                let ghost before = b@;
                let ghost at = i as int;
                if let Some(t) = &p.body {
                    match kind {
                        PartKind::Plain => {
                            b.text = Some(t.clone());
                            b.content_type = "text/plain".to_owned();
                        },
                        PartKind::Html => {
                            b.html = Some(t.clone());
                            b.content_type = "text/html".to_owned();
                        },
                        _ => {},
                    }
                }
                assert(b@ == with_part(before, kind, p@.body));
                assert(bodies_from(pv, kinds@, at, before) == bodies_from(
                    pv,
                    kinds@,
                    after_part(at, p@),
                    b@,
                ));
                if p.span == 0 {
                    i = i + 1;
                } else if p.span >= n - i {
                    assert(bodies_from(pv, kinds@, after_part(at, p@), b@) == b@);
                    i = n;
                } else {
                    i = i + p.span;
                }
            },
        }
    }
    b
}

fn classify_parts(parts: &Vec<MailPart>) -> (r: Vec<PartKind>)
    ensures
        r@ == kinds_of(part_views(parts@)),
{
    let mut out: Vec<PartKind> = Vec::new();
    let mut i: usize = 0;
    let ghost want = kinds_of(part_views(parts@));
    while i < parts.len()
        invariant
            i <= parts@.len(),
            want == kinds_of(part_views(parts@)),
            out@ == want.take(i as int),
        decreases parts@.len() - i,
    {
        let ct = text_or_empty(&parts[i].content_type);
        let lower = to_lowercase(&ct);
        assert(part_views(parts@)[i as int] == parts@[i as int]@);
        out.push(part_kind(&lower));
        assert(want.take(i + 1) =~= want.take(i as int).push(want[i as int]));
        i = i + 1;
    }
    assert(want.take(want.len() as int) == want);
    out
}

pub open spec fn opt_json(o: Option<Seq<char>>) -> Seq<char> {
    match o {
        Some(t) => quoted(t),
        None => "null"@,
    }
}

fn opt_quote(o: &Option<String>) -> (r: String)
    ensures
        r@ == opt_json(opt_view(*o)),
{
    match o {
        Some(t) => quote(t),
        None => "null".to_owned(),
    }
}

pub open spec fn text_or(o: Option<Seq<char>>) -> Seq<char> {
    match o {
        Some(t) => t,
        None => Seq::<char>::empty(),
    }
}

/// The number of a message as text; empty where there is none.
pub open spec fn uid_view(uid: Option<u32>) -> Seq<char> {
    match uid {
        Some(u) => decimal(u as nat),
        None => Seq::<char>::empty(),
    }
}

/// The JSON text of a mail as the guest gets it.
pub open spec fn mail_json(uid: Option<u32>, m: ParsedMailView, b: BodiesView) -> Seq<char> {
    object_text(
        seq![
            ("uid"@, quoted(uid_view(uid))),
            ("subject"@, quoted(text_or(m.subject))),
            ("from"@, quoted(text_or(m.from))),
            ("to"@, quoted(text_or(m.to))),
            ("date"@, quoted(text_or(m.date))),
            ("body_text"@, opt_json(b.text)),
            ("body_html"@, opt_json(b.html)),
            ("content_type"@, quoted(b.content_type)),
        ],
    )
}

/// Writes a mail and its bodies as JSON.
pub fn write_mail(uid: Option<u32>, mail: &ParsedMail, b: &Bodies) -> (r: String)
    ensures
        r@ == mail_json(uid, mail@, b@),
{
    let uid_text = match uid {
        Some(u) => u64_text(u as u64),
        None => String::new(),
    };
    let subject = text_or_empty(&mail.subject);
    let from = text_or_empty(&mail.from);
    let to = text_or_empty(&mail.to);
    let date = text_or_empty(&mail.date);
    let mut m: Vec<(String, String)> = Vec::new();
    m.push(("uid".to_owned(), quote(&uid_text)));
    m.push(("subject".to_owned(), quote(&subject)));
    m.push(("from".to_owned(), quote(&from)));
    m.push(("to".to_owned(), quote(&to)));
    m.push(("date".to_owned(), quote(&date)));
    m.push(("body_text".to_owned(), opt_quote(&b.text)));
    m.push(("body_html".to_owned(), opt_quote(&b.html)));
    m.push(("content_type".to_owned(), quote(&b.content_type)));
    assert(member_views(m@) =~= seq![
        ("uid"@, quoted(uid_view(uid))),
        ("subject"@, quoted(text_or(mail@.subject))),
        ("from"@, quoted(text_or(mail@.from))),
        ("to"@, quoted(text_or(mail@.to))),
        ("date"@, quoted(text_or(mail@.date))),
        ("body_text"@, opt_json(b@.text)),
        ("body_html"@, opt_json(b@.html)),
        ("content_type"@, quoted(b@.content_type)),
    ]);
    write_object(&m)
}

/// A message that was fetched by its number.
pub struct FetchedBody {
    pub uid: Option<u32>,
    pub body: Option<Vec<u8>>,
}

/// The answer to a request for a mail: the first fetched message, read and written as JSON. The
/// guest is told where there is none, or none with a body; the call itself fails where the message
/// cannot be read.
pub open spec fn mail_answer(message_id: Seq<char>, fetched: Seq<FetchedBody>) -> Result<
    Result<Seq<char>, MailErrorView>,
    MailErrorView,
> {
    if fetched.len() == 0 {
        Ok(Err(MailErrorView::Internal("message '"@ + message_id + "' not found"@)))
    } else {
        match fetched[0].body {
            None => Ok(Err(MailErrorView::Internal("message has no body content"@))),
            Some(raw) => match mail_of(raw@) {
                Err(e) => Err(MailErrorView::Internal("failed to parse email: "@ + e)),
                Ok(m) => Ok(
                    Ok(
                        mail_json(
                            fetched[0].uid,
                            m,
                            bodies_from(m.parts, kinds_of(m.parts), 0, no_bodies()),
                        ),
                    ),
                ),
            },
        }
    }
}

pub open spec fn answer_view(r: Result<Result<String, MailError>, MailError>) -> Result<
    Result<Seq<char>, MailErrorView>,
    MailErrorView,
> {
    match r {
        Ok(Ok(t)) => Ok(Ok(t@)),
        Ok(Err(e)) => Ok(Err(e@)),
        Err(e) => Err(e@),
    }
}

/// Answers a request for a mail with what came of the session.
pub fn get_mail(message_id: &str, outcome: ImapOutcome<Vec<FetchedBody>>) -> (r: Result<
    Result<String, MailError>,
    MailError,
>)
    ensures
        answer_view(r) == match outcome {
            ImapOutcome::NotConnected(e) => Ok(Err(MailErrorView::Internal(e@))),
            ImapOutcome::StepFailed { step, mailbox, message } => Err(
                step_error(step, mailbox@, message@),
            ),
            ImapOutcome::Done(v) => mail_answer(message_id@, v@),
        },
{
    let fetched = match outcome {
        ImapOutcome::NotConnected(e) => {
            return Ok(Err(MailError::Internal(e)));
        },
        ImapOutcome::StepFailed { step, mailbox, message } => {
            return Err(imap_error(step, &mailbox, &message));
        },
        ImapOutcome::Done(v) => v,
    };
    if fetched.len() == 0 {
        return Ok(Err(MailError::Internal(cat3("message '", message_id, "' not found"))));
    }
    match &fetched[0].body {
        None => Ok(Err(MailError::Internal("message has no body content".to_owned()))),
        Some(raw) => match parse_mail(raw.as_slice()) {
            Err(e) => Err(MailError::Internal(cat2("failed to parse email: ", &e))),
            Ok(m) => {
                let kinds = classify_parts(&m.parts);
                let bodies = extract_bodies(&m.parts, &kinds);
                Ok(Ok(write_mail(fetched[0].uid, &m, &bodies)))
            },
        },
    }
}

// ---- Plugin ----

pub struct ComponentData {
    pub interface_config: Config,
}

pub struct Mail {
    pub tracker: Table<ComponentData>,
}

pub open spec fn port_or(t: Option<Seq<char>>, default: u16) -> nat {
    match t {
        None => default as nat,
        Some(t) => match parsed_unsigned(t, u16::MAX as nat) {
            Some(n) => n,
            None => default as nat,
        },
    }
}

/// The message for a setting that is neither passed nor configured.
pub open spec fn missing(key: Seq<char>) -> Seq<char> {
    "missing "@ + key + ": provide via constructor or interface config"@
}

/// What the guest passed for a setting.
pub open spec fn passed(config: Option<MailConfig>, which: int) -> Option<Seq<char>> {
    match config {
        None => None,
        Some(c) => Some(
            if which == 0 {
                c.smtp_host@
            } else if which == 1 {
                c.username@
            } else if which == 2 {
                c.password@
            } else {
                c.default_from@
            },
        ),
    }
}

/// The first required setting that is missing.
pub open spec fn missing_setting(
    config: Option<MailConfig>,
    m: Map<Seq<char>, String>,
) -> Option<Seq<char>> {
    if resolved(passed(config, 0), m, "smtp-host"@) is None {
        Some("smtp-host"@)
    } else if resolved(passed(config, 1), m, "username"@) is None {
        Some("username"@)
    } else if resolved(passed(config, 2), m, "password"@) is None {
        Some("password"@)
    } else if resolved(passed(config, 3), m, "default-from"@) is None {
        Some("default-from"@)
    } else {
        None
    }
}

/// `p` holds the settings that the guest passed, and those of the configuration for the rest.
pub open spec fn settings_of(
    p: PluginConfig,
    config: Option<MailConfig>,
    m: Map<Seq<char>, String>,
) -> bool {
    &&& resolved(passed(config, 0), m, "smtp-host"@) == Some(p.smtp_host@)
    &&& resolved(passed(config, 1), m, "username"@) == Some(p.username@)
    &&& resolved(passed(config, 2), m, "password"@) == Some(p.password@)
    &&& resolved(passed(config, 3), m, "default-from"@) == Some(p.default_from@)
    &&& p.smtp_port == match config {
        Some(c) => match c.smtp_port {
            Some(n) => n as nat,
            None => port_or(setting(m, "smtp-port"@), 465),
        },
        None => port_or(setting(m, "smtp-port"@), 465),
    }
    &&& opt_view(p.imap_host) == resolved(
        match config {
            Some(c) => opt_view(c.imap_host),
            None => None,
        },
        m,
        "imap-host"@,
    )
    &&& p.imap_port == port_or(setting(m, "imap-port"@), 993)
}

fn configured_port(config: &Config, key: &str, default: u16) -> (r: u16)
    ensures
        r == port_or(setting(config@, key@), default),
{
    match config_get(config, key) {
        None => default,
        Some(t) => match parse_u16(&t) {
            Some(n) => n,
            None => default,
        },
    }
}

/// The settings of a new client: what the guest passes goes before the static configuration.
pub fn resolve_settings(config: Option<MailConfig>, interface_config: &Config) -> (r: Result<
    PluginConfig,
    String,
>)
    ensures
        match r {
            Ok(p) => missing_setting(config, interface_config@) is None && settings_of(
                p,
                config,
                interface_config@,
            ),
            Err(e) => match missing_setting(config, interface_config@) {
                Some(k) => e@ == missing(k),
                None => false,
            },
        },
{
    let ghost given = config;
    let (host, port, user, pass, from, imap) = match config {
        Some(c) => (
            Some(c.smtp_host),
            c.smtp_port,
            Some(c.username),
            Some(c.password),
            Some(c.default_from),
            c.imap_host,
        ),
        None => (None, None, None, None, None, None),
    };
    let smtp_host = match resolve_field(host, interface_config, "smtp-host") {
        Some(v) => v,
        None => {
            return Err(
                cat3("missing ", "smtp-host", ": provide via constructor or interface config"),
            );
        },
    };
    let username = match resolve_field(user, interface_config, "username") {
        Some(v) => v,
        None => {
            return Err(
                cat3("missing ", "username", ": provide via constructor or interface config"),
            );
        },
    };
    let password = match resolve_field(pass, interface_config, "password") {
        Some(v) => v,
        None => {
            return Err(
                cat3("missing ", "password", ": provide via constructor or interface config"),
            );
        },
    };
    let default_from = match resolve_field(from, interface_config, "default-from") {
        Some(v) => v,
        None => {
            return Err(
                cat3("missing ", "default-from", ": provide via constructor or interface config"),
            );
        },
    };
    let smtp_port: u16 = match port {
        Some(n) => n,
        None => configured_port(interface_config, "smtp-port", 465),
    };
    let imap_host = resolve_field(imap, interface_config, "imap-host");
    let imap_port: u16 = configured_port(interface_config, "imap-port", 993);
    Ok(
        PluginConfig {
            smtp_host,
            smtp_port,
            username,
            password,
            default_from,
            imap_host,
            imap_port,
        },
    )
}

impl Mail {
    pub fn new() -> (r: Mail)
        ensures
            r.tracker@ == Map::<Seq<char>, ComponentData>::empty(),
    {
        Mail { tracker: Table::new() }
    }

    pub fn id(&self) -> (r: &'static str)
        ensures
            r@ == "plugin-mail"@,
    {
        PLUGIN_ID
    }

    pub fn world(&self) -> (r: WitWorld)
        ensures
            r.imports@.len() == 0,
            r.exports@.len() == 1,
            r.exports@[0].names("custom"@, "mail"@, seq!["sender"@], "0.1.0"@),
    {
        let mut exports: Vec<WitInterface> = Vec::new();
        exports.push(WitInterface::of("custom", "mail", one("sender"), "0.1.0"));
        WitWorld { imports: Vec::new(), exports }
    }

    /// Begins to track a component that brings a `custom:mail` interface.
    pub fn on_workload_item_bind(
        &mut self,
        component_id: &str,
        is_component: bool,
        interfaces: &Vec<WitInterface>,
    ) -> (bound: bool)
        ensures
            bound == (is_component && first_of_package(interfaces@, "custom"@, "mail"@) is Some),
            !bound ==> final(self).tracker@ == old(self).tracker@,
            bound ==> put_at(old(self).tracker@, final(self).tracker@, component_id@)
                && final(self).tracker@[component_id@].interface_config@ == first_of_package(
                interfaces@,
                "custom"@,
                "mail"@,
            )->0.config@,
    {
        if let Some(interface_config) = bound_config(interfaces, "custom", "mail") {
            if is_component {
                let data = ComponentData { interface_config };
                proof {
                    lemma_put(self.tracker@, component_id@, data);
                }
                self.tracker.insert(component_id.to_owned(), data);
                return true;
            }
        }
        false
    }

    /// Forgets what is kept under the id of a workload.
    pub fn on_workload_unbind(&mut self, workload_id: &str)
        ensures
            final(self).tracker@ == old(self).tracker@.remove(workload_id@),
    {
        let _ = self.tracker.remove(workload_id);
    }

    /// A client for a component.
    pub fn new_client(&self, component_id: &str, config: Option<MailConfig>) -> (r: Result<
        MailClientHandle,
        String,
    >)
        ensures
            match lookup(self.tracker@, component_id@) {
                None => r is Err && r->Err_0@ == "component not tracked"@,
                Some(d) => match r {
                    Ok(h) => missing_setting(config, d.interface_config@) is None && settings_of(
                        h.config,
                        config,
                        d.interface_config@,
                    ),
                    Err(e) => match missing_setting(config, d.interface_config@) {
                        Some(k) => e@ == missing(k),
                        None => false,
                    },
                },
            },
    {
        match self.tracker.get(component_id) {
            None => Err("component not tracked".to_owned()),
            Some(d) => match resolve_settings(config, &d.interface_config) {
                Ok(config) => Ok(MailClientHandle { config }),
                Err(e) => Err(e),
            },
        }
    }
}

impl Default for Mail {
    fn default() -> (r: Mail)
        ensures
            r.tracker@ == Map::<Seq<char>, ComponentData>::empty(),
    {
        Mail::new()
    }
}

// ---- Laws ----

/// A list that is accepted has one mailbox for each address text, and at least one.
pub proof fn accepted_list_keeps_every_address(addrs: Seq<char>)
    ensures
        match parsed_addresses(addrs) {
            Ok(l) => l.len() >= 1 && l.len() == address_texts(split_at_char(addrs, ',')).len(),
            Err(_) => true,
        },
{
    let texts = address_texts(split_at_char(addrs, ','));
    lemma_gathered_len(texts, outcomes_of(texts));
}

/// What the guest passes to the constructor decides, whatever the static configuration holds.
pub proof fn constructor_config_has_priority(
    p: PluginConfig,
    config: MailConfig,
    m: Map<Seq<char>, String>,
)
    requires
        settings_of(p, Some(config), m),
    ensures
        p.smtp_host@ == config.smtp_host@,
        p.username@ == config.username@,
        p.password@ == config.password@,
        p.default_from@ == config.default_from@,
        config.smtp_port is Some ==> config.smtp_port == Some(p.smtp_port),
        config.imap_host is Some ==> opt_view(p.imap_host) == opt_view(config.imap_host),
{
}

proof fn lemma_sorted_whole(p: Seq<u32>, a: Seq<u32>) -> (w: Seq<u32>)
    requires
        ascending(a),
        forall|i: int, j: int|
            0 <= i < p.len() && 0 <= j < a.len() ==> (#[trigger] p[i]) <= (#[trigger] a[j]),
    ensures
        w.to_multiset() == (p + a).to_multiset(),
        w.len() == p.len() + a.len(),
        w.skip(p.len() as int) == a,
        vstd::relations::sorted_by(w, |x: u32, y: u32| x <= y),
{
    let leq = |x: u32, y: u32| x <= y;
    let b = p.sort_by(leq);
    p.lemma_sort_by_ensures(leq);
    p.to_multiset_ensures();
    b.to_multiset_ensures();
    vstd::seq_lib::lemma_multiset_commutative(p, a);
    vstd::seq_lib::lemma_multiset_commutative(b, a);
    let w = b + a;
    assert(b.len() == p.len());
    assert forall|i: int, j: int| 0 <= i < j < w.len() implies #[trigger] leq(w[i], w[j]) by {
        if j < b.len() {
            assert(leq(b[i], b[j]));
        } else if i < b.len() {
            assert(b.contains(b[i]));
            assert(p.contains(b[i]));
            let k = choose|k: int| 0 <= k < p.len() && p[k] == b[i];
            assert(p[k] <= a[j - b.len()]);
        } else {
            assert(a[i - b.len()] <= a[j - b.len()]);
        }
    }
    assert(w.skip(p.len() as int) =~= a);
    w
}

proof fn lemma_greatest_unique(p: Seq<u32>, a: Seq<u32>, q: Seq<u32>, b: Seq<u32>)
    requires
        ascending(a),
        ascending(b),
        a.len() == b.len(),
        (p + a).to_multiset() == (q + b).to_multiset(),
        forall|i: int, j: int|
            0 <= i < p.len() && 0 <= j < a.len() ==> (#[trigger] p[i]) <= (#[trigger] a[j]),
        forall|i: int, j: int|
            0 <= i < q.len() && 0 <= j < b.len() ==> (#[trigger] q[i]) <= (#[trigger] b[j]),
    ensures
        a == b,
{
    let w = lemma_sorted_whole(p, a);
    let v = lemma_sorted_whole(q, b);
    (p + a).to_multiset_ensures();
    (q + b).to_multiset_ensures();
    assert(p.len() == q.len());
    vstd::seq_lib::lemma_sorted_unique(w, v, |x: u32, y: u32| x <= y);
}

/// A listing is determined by the numbers that were found, whatever the order in which they came.
pub proof fn listing_ignores_the_order(
    a: Seq<u32>,
    s: Seq<u32>,
    b: Seq<u32>,
    t: Seq<u32>,
    limit: nat,
)
    requires
        s.to_multiset() == t.to_multiset(),
        greatest(a, s, limit),
        greatest(b, t, limit),
    ensures
        a == b,
{
    let p = choose|rest: Seq<u32>| #[trigger] left_out(rest, a, s);
    let q = choose|rest: Seq<u32>| #[trigger] left_out(rest, b, t);
    s.to_multiset_ensures();
    t.to_multiset_ensures();
    assert(s.len() == t.len());
    lemma_greatest_unique(p, a, q, b);
}

/// Where all addresses are valid, a mail is refused only if it has no body at all. One body is the
/// body of the mail, as it was given; two are alternatives of each other. Sender, recipients and
/// subject go along.
pub proof fn one_body_is_enough(
    default_from: Seq<char>,
    from: MailboxView,
    to: Seq<MailboxView>,
    cc: Seq<MailboxView>,
    bcc: Seq<MailboxView>,
    subject: Seq<char>,
    text: Option<Seq<char>>,
    html: Option<Seq<char>>,
)
    ensures
        ({
            let r = composed(default_from, Ok(from), Ok(to), Ok(cc), Ok(bcc), subject, text, html);
            &&& r is Ok <==> text is Some || html is Some
            &&& r is Err ==> r->Err_0 == MailErrorView::InvalidAddress(
                "either body-text or body-html must be provided"@,
            )
            &&& r is Ok ==> {
                let mail = r->Ok_0;
                &&& mail.from == from
                &&& mail.to == to
                &&& mail.cc == cc
                &&& mail.bcc == bcc
                &&& mail.subject == subject
                &&& html is None ==> mail.body == MailBodyView::Single(text->0)
                &&& text is None ==> mail.body == MailBodyView::Single(html->0)
                &&& text is Some && html is Some ==> mail.body == (MailBodyView::Alternative {
                    text: text->0,
                    html: html->0,
                })
            }
        }),
{
}

/// One bad address refuses the mail, whatever else it holds: the sender's goes before those of the
/// recipients, and these before those of the copies.
pub proof fn bad_addresses_refuse_the_mail(
    default_from: Seq<char>,
    from: Result<MailboxView, Seq<char>>,
    to: Result<Seq<MailboxView>, Seq<char>>,
    cc: Result<Seq<MailboxView>, Seq<char>>,
    bcc: Result<Seq<MailboxView>, Seq<char>>,
    subject: Seq<char>,
    text: Option<Seq<char>>,
    html: Option<Seq<char>>,
)
    ensures
        ({
            let r = composed(default_from, from, to, cc, bcc, subject, text, html);
            &&& r is Ok ==> from is Ok && to is Ok && cc is Ok && bcc is Ok
            &&& from is Err ==> r == Err::<OutgoingMailView, MailErrorView>(
                MailErrorView::InvalidAddress(
                    "invalid from address '"@ + default_from + "': "@ + from->Err_0,
                ),
            )
            &&& from is Ok && to is Err ==> r == Err::<OutgoingMailView, MailErrorView>(
                MailErrorView::InvalidAddress(to->Err_0),
            )
            &&& from is Ok && to is Ok && cc is Err ==> r == Err::<OutgoingMailView, MailErrorView>(
                MailErrorView::InvalidAddress(cc->Err_0),
            )
            &&& from is Ok && to is Ok && cc is Ok && bcc is Err ==> r == Err::<
                OutgoingMailView,
                MailErrorView,
            >(MailErrorView::InvalidAddress(bcc->Err_0))
        }),
{
}

/// The addresses of a list are its pieces that are not blank, trimmed, in order.
pub proof fn addresses_are_the_pieces(pieces: Seq<Seq<char>>, more: Seq<char>)
    ensures
        address_texts(Seq::<Seq<char>>::empty()).len() == 0,
        trimmed(more).len() == 0 ==> address_texts(pieces.push(more)) == address_texts(pieces),
        trimmed(more).len() > 0 ==> address_texts(pieces.push(more)) == address_texts(pieces).push(
            trimmed(more),
        ),
{
    assert(pieces.push(more).drop_last() =~= pieces);
}

proof fn lemma_gathered(texts: Seq<Seq<char>>, outcomes: Seq<Result<MailboxView, Seq<char>>>)
    requires
        texts.len() == outcomes.len(),
    ensures
        match gathered(texts, outcomes) {
            Ok(l) => l.len() == outcomes.len() && forall|i: int|
                0 <= i < outcomes.len() ==> #[trigger] outcomes[i] == Ok::<MailboxView, Seq<char>>(
                    l[i],
                ),
            Err(e) => exists|i: int|
                0 <= i < outcomes.len() && (#[trigger] outcomes[i]) is Err && e
                    == "invalid address '"@ + texts[i] + "': "@ + outcomes[i]->Err_0 && forall|k: int|
                    0 <= k < i ==> (#[trigger] outcomes[k]) is Ok,
        },
    decreases texts.len(),
{
    if texts.len() > 0 {
        let t = texts.drop_last();
        let o = outcomes.drop_last();
        lemma_gathered(t, o);
        match gathered(t, o) {
            Err(e) => {
                let i = choose|i: int|
                    0 <= i < o.len() && (#[trigger] o[i]) is Err && e == "invalid address '"@ + t[i]
                        + "': "@ + o[i]->Err_0 && forall|k: int|
                        0 <= k < i ==> (#[trigger] o[k]) is Ok;
                assert(outcomes[i] == o[i] && texts[i] == t[i]);
                assert forall|k: int| 0 <= k < i implies (#[trigger] outcomes[k]) is Ok by {
                    assert(outcomes[k] == o[k]);
                }
            },
            Ok(l) => {
                assert forall|k: int| 0 <= k < o.len() implies #[trigger] outcomes[k] == Ok::<
                    MailboxView,
                    Seq<char>,
                >(l[k]) by {
                    assert(outcomes[k] == o[k]);
                }
                assert(outcomes.last() == outcomes[outcomes.len() - 1]);
            },
        }
    }
}

/// A list gives the mailbox of each of its addresses, in order; the first address that is not valid
/// refuses it, by name, and so does a list without addresses.
pub proof fn lists_give_every_mailbox(addrs: Seq<char>)
    ensures
        ({
            let texts = address_texts(split_at_char(addrs, ','));
            match parsed_addresses(addrs) {
                Ok(l) => texts.len() > 0 && l.len() == texts.len() && forall|i: int|
                    0 <= i < texts.len() ==> mailbox_of(#[trigger] texts[i]) == Ok::<
                        MailboxView,
                        Seq<char>,
                    >(l[i]),
                Err(e) => if texts.len() == 0 {
                    e == "no valid addresses provided"@
                } else {
                    exists|i: int|
                        0 <= i < texts.len() && mailbox_of(#[trigger] texts[i]) is Err && e
                            == "invalid address '"@ + texts[i] + "': "@ + mailbox_of(texts[i])->Err_0
                            && forall|k: int| 0 <= k < i ==> mailbox_of(#[trigger] texts[k]) is Ok
                },
            }
        }),
{
    let texts = address_texts(split_at_char(addrs, ','));
    let o = outcomes_of(texts);
    lemma_gathered(texts, o);
    if texts.len() > 0 {
        match gathered(texts, o) {
            Ok(l) => {
                assert forall|i: int| 0 <= i < texts.len() implies mailbox_of(#[trigger] texts[i])
                    == Ok::<MailboxView, Seq<char>>(l[i]) by {
                    assert(o[i] == mailbox_of(texts[i]));
                }
            },
            Err(e) => {
                let i = choose|i: int|
                    0 <= i < o.len() && (#[trigger] o[i]) is Err && e == "invalid address '"@
                        + texts[i] + "': "@ + o[i]->Err_0 && forall|k: int|
                        0 <= k < i ==> (#[trigger] o[k]) is Ok;
                assert(o[i] == mailbox_of(texts[i]));
                assert forall|k: int| 0 <= k < i implies mailbox_of(#[trigger] texts[k]) is Ok by {
                    assert(o[k] == mailbox_of(texts[k]));
                }
                assert(mailbox_of(texts[i]) is Err);
            },
        }
    }
}

/// Copies may be left out, or left empty; else they are addresses like the others.
pub proof fn copies_may_be_left_out(s: Seq<char>)
    ensures
        optional_addresses(None) is Ok && optional_addresses(None)->Ok_0.len() == 0,
        s.len() == 0 ==> optional_addresses(Some(s)) is Ok && optional_addresses(Some(s))->Ok_0.len()
            == 0,
        s.len() > 0 ==> optional_addresses(Some(s)) == parsed_addresses(s),
{
}

/// An address is shown as name, mailbox and host: `name mailbox@host`, without what is missing.
pub proof fn addresses_are_shown_whole(n: Seq<char>, m: Seq<char>, h: Seq<char>)
    ensures
        address_line(Some(n), m, Some(h)) == n + " "@ + m + "@"@ + h,
        address_line(Some(n), m, None) == n + " "@ + m,
        address_line(None, m, Some(h)) == m + "@"@ + h,
        address_line(None, m, None) == m,
{
    assert(address_line(Some(n), m, Some(h)) =~= n + " "@ + m + "@"@ + h);
    assert(address_line(Some(n), m, None) =~= n + " "@ + m);
    assert(address_line(None, m, Some(h)) =~= m + "@"@ + h);
    assert(address_line(None, m, None) =~= m);
}

/// The entry of a mail shows the mail: its number, subject, first sender, date and flags.
pub proof fn entries_show_the_mail(e: MailEntry, m: FetchedMail)
    requires
        entry_for(e, m),
    ensures
        m.uid is Some ==> e.uid@ == decimal(m.uid->0 as nat),
        m.uid is None ==> e.uid@.len() == 0,
        m.subject is Some ==> e.subject@ == lossy_text(m.subject->0@),
        m.subject is None ==> e.subject@.len() == 0,
        m.date is Some ==> e.date@ == lossy_text(m.date->0@),
        m.date is None ==> e.date@.len() == 0,
        m.from is None ==> e.from@.len() == 0,
        match m.from {
            Some(a) => {
                let mailbox = match a.mailbox {
                    Some(b) => lossy_text(b@),
                    None => Seq::<char>::empty(),
                };
                match (a.name, a.host) {
                    (Some(n), Some(h)) => e.from@ == lossy_text(n@) + " "@ + mailbox + "@"@
                        + lossy_text(h@),
                    (Some(n), None) => e.from@ == lossy_text(n@) + " "@ + mailbox,
                    (None, Some(h)) => e.from@ == mailbox + "@"@ + lossy_text(h@),
                    (None, None) => e.from@ == mailbox,
                }
            },
            None => true,
        },
        e.flags@ == m.flags@,
{
    match m.from {
        Some(a) => {
            addresses_are_shown_whole(
                opt_lossy(a.name),
                opt_lossy(a.mailbox),
                opt_lossy(a.host),
            );
        },
        None => {},
    }
}

/// A listed mail is an object with its number, subject, sender, date and flags under those names.
pub proof fn listed_mails_are_objects(
    uid: Seq<char>,
    subject: Seq<char>,
    from: Seq<char>,
    date: Seq<char>,
    flags: Seq<Seq<char>>,
) -> (m: Seq<(Seq<char>, Seq<char>)>)
    ensures
        listed_text(uid, subject, from, date, flags) == object_text(m),
        m.len() == 5,
        m[0] == ("uid"@, quoted(uid)),
        m[1] == ("subject"@, quoted(subject)),
        m[2] == ("from"@, quoted(from)),
        m[3] == ("date"@, quoted(date)),
        m[4].0 == "flags"@,
        exists|a: Seq<Seq<char>>| #[trigger]
            array_text(a) == m[4].1 && a.len() == flags.len() && forall|i: int|
            0 <= i < flags.len() ==> #[trigger] a[i] == quoted(flags[i]),
{
    let a = quoted_all(flags);
    let m = seq![
        ("uid"@, quoted(uid)),
        ("subject"@, quoted(subject)),
        ("from"@, quoted(from)),
        ("date"@, quoted(date)),
        ("flags"@, array_text(a)),
    ];
    assert(array_text(a) == m[4].1);
    m
}

/// The listing has one object for each mail, in order, and each shows what its entry shows.
pub proof fn listings_show_every_mail(v: Seq<FetchedMail>, i: int, e: MailEntry)
    requires
        0 <= i < v.len(),
        entry_for(e, v[i]),
    ensures
        listing_json(v).len() == v.len(),
        listing_json(v)[i] == listed_text(e.uid@, e.subject@, e.from@, e.date@, views(e.flags@)),
        listing_json(v)[i] == entry_json(e),
{
}

/// What a step of reading mail fails with is told by its step.
pub proof fn failed_steps_are_named(mailbox: Seq<char>, m: Seq<char>)
    ensures
        step_error(ImapStep::Select, mailbox, m) == MailErrorView::Internal(
            "failed to select mailbox '"@ + mailbox + "': "@ + m,
        ),
        step_error(ImapStep::Search, mailbox, m) == MailErrorView::Internal(
            "IMAP search failed: "@ + m,
        ),
        step_error(ImapStep::Fetch, mailbox, m) == MailErrorView::Internal(
            "IMAP fetch failed: "@ + m,
        ),
        step_error(ImapStep::Collect, mailbox, m) == MailErrorView::Internal(
            "IMAP fetch collect failed: "@ + m,
        ),
{
}

/// A raw mail is read by its headers: subject, sender, recipients and date are those of the whole
/// mail, and each part has its own type and text.
pub proof fn mails_are_read_by_their_headers(raw: Seq<u8>, i: int)
    ensures
        match mail_of(raw) {
            Ok(m) => {
                &&& mail_parts_of(raw) is Ok && m.parts.len() == mail_parts_of(raw)->Ok_0.len()
                &&& m.subject == part_header_of(raw, 0, "Subject"@)
                &&& m.from == part_header_of(raw, 0, "From"@)
                &&& m.to == part_header_of(raw, 0, "To"@)
                &&& m.date == part_header_of(raw, 0, "Date"@)
                &&& 0 <= i < m.parts.len() ==> m.parts[i].content_type == part_header_of(
                    raw,
                    i as nat,
                    "Content-Type"@,
                ) && m.parts[i].body == part_body_of(raw, i as nat) && m.parts[i].span
                    == mail_parts_of(raw)->Ok_0[i]
            },
            Err(e) => mail_parts_of(raw) == Err::<Seq<nat>, Seq<char>>(e),
        },
{
}

/// A part is text, HTML or a container by how its type begins, whatever follows.
pub proof fn parts_are_told_by_their_type(rest: Seq<char>, t: Seq<char>)
    ensures
        kind_of("text/plain"@ + rest) == PartKind::Plain,
        kind_of("text/html"@ + rest) == PartKind::Html,
        kind_of("multipart/"@ + rest) == PartKind::Multipart,
        !"text/plain"@.is_prefix_of(t) && !"text/html"@.is_prefix_of(t) && !"multipart/"@.is_prefix_of(
            t,
        ) ==> kind_of(t) == PartKind::Other,
{
    reveal_strlit("text/plain");
    reveal_strlit("text/html");
    reveal_strlit("multipart/");
    let a = "text/plain"@ + rest;
    assert(a.subrange(0, "text/plain"@.len() as int) =~= "text/plain"@);
    let b = "text/html"@ + rest;
    assert(b.subrange(0, "text/html"@.len() as int) =~= "text/html"@);
    assert(b[5] == 'h');
    assert(!"text/plain"@.is_prefix_of(b)) by {
        if "text/plain"@.is_prefix_of(b) {
            assert(b.subrange(0, 10)[5] == b[5]);
        }
    }
    let c = "multipart/"@ + rest;
    assert(c.subrange(0, "multipart/"@.len() as int) =~= "multipart/"@);
    assert(c[0] == 'm');
    assert(!"text/plain"@.is_prefix_of(c)) by {
        if "text/plain"@.is_prefix_of(c) {
            assert(c.subrange(0, 10)[0] == c[0]);
        }
    }
    assert(!"text/html"@.is_prefix_of(c)) by {
        if "text/html"@.is_prefix_of(c) {
            assert(c.subrange(0, 9)[0] == c[0]);
        }
    }
}

/// A mail of parts that hold no others: its text is that of the last text part, and its HTML that
/// of the last HTML part; parts of other kinds, and parts without text, change nothing.
pub proof fn the_last_part_of_a_kind_counts(
    parts: Seq<PartView>,
    kinds: Seq<PartKind>,
    i: int,
    last: int,
    b: BodiesView,
)
    requires
        parts.len() == kinds.len(),
        0 <= i <= last < parts.len(),
        forall|k: int| 0 <= k < parts.len() ==> (#[trigger] parts[k]).span == 1,
        forall|k: int| 0 <= k < parts.len() ==> #[trigger] kinds[k] != PartKind::Multipart,
        parts[last].body is Some,
        forall|k: int| last < k < parts.len() ==> #[trigger] kinds[k] != kinds[last],
    ensures
        kinds[last] == PartKind::Plain ==> bodies_from(parts, kinds, i, b).text == parts[last].body,
        kinds[last] == PartKind::Html ==> bodies_from(parts, kinds, i, b).html == parts[last].body,
    decreases parts.len() - i,
{
    if i == last {
        lemma_parts_keep(parts, kinds, i + 1, kinds[last], with_part(b, kinds[i], parts[i].body));
        assert(parts[i].span == 1);
    } else {
        assert(parts[i].span == 1);
        the_last_part_of_a_kind_counts(
            parts,
            kinds,
            i + 1,
            last,
            with_part(b, kinds[i], parts[i].body),
        );
    }
    assert(kinds[i] != PartKind::Multipart);
}

proof fn lemma_parts_keep(
    parts: Seq<PartView>,
    kinds: Seq<PartKind>,
    i: int,
    kind: PartKind,
    b: BodiesView,
)
    requires
        parts.len() == kinds.len(),
        0 <= i,
        forall|k: int| 0 <= k < parts.len() ==> (#[trigger] parts[k]).span == 1,
        forall|k: int| 0 <= k < parts.len() ==> #[trigger] kinds[k] != PartKind::Multipart,
        forall|k: int| i <= k < parts.len() ==> #[trigger] kinds[k] != kind,
    ensures
        kind == PartKind::Plain ==> bodies_from(parts, kinds, i, b).text == b.text,
        kind == PartKind::Html ==> bodies_from(parts, kinds, i, b).html == b.html,
    decreases parts.len() - i,
{
    if i < parts.len() {
        assert(parts[i].span == 1);
        assert(kinds[i] != kind);
        lemma_parts_keep(parts, kinds, i + 1, kind, with_part(b, kinds[i], parts[i].body));
    }
}

/// A container is entered, and holds no text itself; another part is passed over with all that it
/// holds. What a part gives goes under its own kind and leaves the other alone.
pub proof fn containers_are_entered(
    parts: Seq<PartView>,
    kinds: Seq<PartKind>,
    i: int,
    b: BodiesView,
    t: Seq<char>,
)
    requires
        0 <= i < parts.len(),
        parts[i].span > 0,
    ensures
        kinds[i] == PartKind::Multipart ==> bodies_from(parts, kinds, i, b) == bodies_from(
            parts,
            kinds,
            i + 1,
            b,
        ),
        kinds[i] == PartKind::Other || (kinds[i] != PartKind::Multipart && parts[i].body is None)
            ==> bodies_from(parts, kinds, i, b) == bodies_from(parts, kinds, i + parts[i].span, b),
        kinds[i] == PartKind::Plain && parts[i].body == Some(t) ==> bodies_from(parts, kinds, i, b)
            == bodies_from(
            parts,
            kinds,
            i + parts[i].span,
            BodiesView { text: Some(t), html: b.html, content_type: "text/plain"@ },
        ),
        kinds[i] == PartKind::Html && parts[i].body == Some(t) ==> bodies_from(parts, kinds, i, b)
            == bodies_from(
            parts,
            kinds,
            i + parts[i].span,
            BodiesView { text: b.text, html: Some(t), content_type: "text/html"@ },
        ),
        bodies_from(parts, kinds, parts.len() as int, b) == b,
        no_bodies().text is None && no_bodies().html is None,
        no_bodies().content_type == "text/plain"@,
{
}

/// A mail is an object with its number, headers and bodies under those names; a body that is
/// missing is null, a header that is missing is empty.
pub proof fn mails_are_objects(uid: Option<u32>, h: ParsedMailView, b: BodiesView) -> (m: Seq<
    (Seq<char>, Seq<char>),
>)
    ensures
        mail_json(uid, h, b) == object_text(m),
        m.len() == 8,
        m[0] == ("uid"@, quoted(
            match uid {
                Some(u) => decimal(u as nat),
                None => Seq::<char>::empty(),
            },
        )),
        m[1].0 == "subject"@ && m[2].0 == "from"@ && m[3].0 == "to"@ && m[4].0 == "date"@,
        h.subject is Some ==> m[1].1 == quoted(h.subject->0),
        h.subject is None ==> m[1].1 == quoted(Seq::<char>::empty()),
        h.from is Some ==> m[2].1 == quoted(h.from->0),
        h.from is None ==> m[2].1 == quoted(Seq::<char>::empty()),
        h.to is Some ==> m[3].1 == quoted(h.to->0),
        h.to is None ==> m[3].1 == quoted(Seq::<char>::empty()),
        h.date is Some ==> m[4].1 == quoted(h.date->0),
        h.date is None ==> m[4].1 == quoted(Seq::<char>::empty()),
        m[5].0 == "body_text"@ && m[6].0 == "body_html"@,
        b.text is Some ==> m[5].1 == quoted(b.text->0),
        b.text is None ==> m[5].1 == "null"@,
        b.html is Some ==> m[6].1 == quoted(b.html->0),
        b.html is None ==> m[6].1 == "null"@,
        m[7] == ("content_type"@, quoted(b.content_type)),
{
    seq![
        ("uid"@, quoted(uid_view(uid))),
        ("subject"@, quoted(text_or(h.subject))),
        ("from"@, quoted(text_or(h.from))),
        ("to"@, quoted(text_or(h.to))),
        ("date"@, quoted(text_or(h.date))),
        ("body_text"@, opt_json(b.text)),
        ("body_html"@, opt_json(b.html)),
        ("content_type"@, quoted(b.content_type)),
    ]
}

/// The answer for a mail is the first one fetched; a mail that is not there, that has no content or
/// that cannot be read is answered by an error.
pub proof fn answers_are_the_fetched_mail(id: Seq<char>, fetched: Seq<FetchedBody>)
    ensures
        match mail_answer(id, fetched) {
            Ok(Ok(t)) => fetched.len() > 0 && fetched[0].body is Some && mail_of(
                fetched[0].body->0@,
            ) is Ok && ({
                let m = mail_of(fetched[0].body->0@)->Ok_0;
                t == mail_json(
                    fetched[0].uid,
                    m,
                    bodies_from(m.parts, kinds_of(m.parts), 0, no_bodies()),
                )
            }),
            Ok(Err(e)) => if fetched.len() == 0 {
                e == MailErrorView::Internal("message '"@ + id + "' not found"@)
            } else {
                fetched[0].body is None && e == MailErrorView::Internal(
                    "message has no body content"@,
                )
            },
            Err(e) => fetched.len() > 0 && fetched[0].body is Some && mail_of(
                fetched[0].body->0@,
            ) is Err && e == MailErrorView::Internal(
                "failed to parse email: "@ + mail_of(fetched[0].body->0@)->Err_0,
            ),
        },
{
}

/// The kind of a part is that of its type in small letters; a part without a type is of another
/// kind.
pub proof fn kinds_go_by_the_type(parts: Seq<PartView>, i: int)
    requires
        0 <= i < parts.len(),
    ensures
        kinds_of(parts).len() == parts.len(),
        parts[i].content_type is Some ==> kinds_of(parts)[i] == kind_of(
            lowercase(parts[i].content_type->0),
        ),
        parts[i].content_type is None ==> kinds_of(parts)[i] == kind_of(
            lowercase(Seq::<char>::empty()),
        ),
{
}

/// Without settings of the guest's, all comes from the static configuration under its own name; the
/// ports have the usual values where none is given that is a port.
pub proof fn static_config_fills_the_gaps(
    p: PluginConfig,
    config: Option<MailConfig>,
    m: Map<Seq<char>, String>,
)
    requires
        settings_of(p, config, m),
    ensures
        config is None ==> {
            &&& m.contains_key("smtp-host"@) && p.smtp_host@ == m["smtp-host"@]@
            &&& m.contains_key("username"@) && p.username@ == m["username"@]@
            &&& m.contains_key("password"@) && p.password@ == m["password"@]@
            &&& m.contains_key("default-from"@) && p.default_from@ == m["default-from"@]@
        },
        config is None || config->0.smtp_port is None ==> {
            &&& !m.contains_key("smtp-port"@) ==> p.smtp_port == 465
            &&& m.contains_key("smtp-port"@) ==> match parsed_unsigned(m["smtp-port"@]@, 0xffff) {
                Some(n) => p.smtp_port == n,
                None => p.smtp_port == 465,
            }
        },
        config is None || config->0.imap_host is None ==> {
            &&& !m.contains_key("imap-host"@) ==> p.imap_host is None
            &&& m.contains_key("imap-host"@) ==> p.imap_host is Some && p.imap_host->0@
                == m["imap-host"@]@
        },
        !m.contains_key("imap-port"@) ==> p.imap_port == 993,
        m.contains_key("imap-port"@) ==> match parsed_unsigned(m["imap-port"@]@, 0xffff) {
            Some(n) => p.imap_port == n,
            None => p.imap_port == 993,
        },
{
}

/// A client is refused for the first setting that nobody gives: the server, then the user, the
/// password and the sender. A guest that passes its settings passes all of these.
pub proof fn missing_settings_are_named(config: Option<MailConfig>, m: Map<Seq<char>, String>, key: Seq<char>)
    ensures
        config is Some ==> missing_setting(config, m) is None,
        config is None ==> missing_setting(config, m) == if !m.contains_key("smtp-host"@) {
            Some("smtp-host"@)
        } else if !m.contains_key("username"@) {
            Some("username"@)
        } else if !m.contains_key("password"@) {
            Some("password"@)
        } else if !m.contains_key("default-from"@) {
            Some("default-from"@)
        } else {
            None
        },
        missing(key) == "missing "@ + key + ": provide via constructor or interface config"@,
{
}

/// The set of numbers to fetch names each number once, in order.
pub proof fn every_number_is_fetched(uids: Seq<u32>)
    ensures
        uid_texts(uids).len() == uids.len(),
        forall|i: int| 0 <= i < uids.len() ==> #[trigger] uid_texts(uids)[i] == decimal(uids[i] as nat),
{
}

/// The plugin goes by its own name, and takes and gives the interfaces of its own package.
pub proof fn the_plugin_and_its_world(p: Mail, id: &'static str, w: WitWorld)
    requires
        call_ensures(Mail::id, (&p,), id),
        call_ensures(Mail::world, (&p,), w),
    ensures
        id@ == "plugin-mail"@,
        w.imports@.len() == 0,
        w.exports@.len() == 1,
        w.exports@[0].names("custom"@, "mail"@, seq!["sender"@], "0.1.0"@),
{
}

/// The addresses of a mail are checked as they are given; the sender is the configured one.
pub proof fn mails_are_composed_of_what_is_given(
    h: MailClientHandle,
    to: &str,
    subject: &str,
    text: Option<String>,
    html: Option<String>,
    cc: Option<String>,
    bcc: Option<String>,
    r: Result<OutgoingMail, MailError>,
)
    requires
        call_ensures(MailClientHandle::send_mail, (&h, to, subject, text, html, cc, bcc), r),
    ensures
        r is Ok <==> mailbox_of(h.config.default_from@) is Ok && parsed_addresses(to@) is Ok
            && optional_addresses(opt_view(cc)) is Ok && optional_addresses(opt_view(bcc)) is Ok && (
        text is Some || html is Some),
        r is Ok ==> {
            let m = r->Ok_0@;
            &&& mailbox_of(h.config.default_from@) == Ok::<MailboxView, Seq<char>>(m.from)
            &&& parsed_addresses(to@) == Ok::<Seq<MailboxView>, Seq<char>>(m.to)
            &&& optional_addresses(opt_view(cc)) == Ok::<Seq<MailboxView>, Seq<char>>(m.cc)
            &&& optional_addresses(opt_view(bcc)) == Ok::<Seq<MailboxView>, Seq<char>>(m.bcc)
            &&& m.subject == subject@
            &&& text is Some && html is None ==> m.body == MailBodyView::Single(text->0@)
            &&& text is None && html is Some ==> m.body == MailBodyView::Single(html->0@)
            &&& text is Some && html is Some ==> m.body == (MailBodyView::Alternative {
                text: text->0@,
                html: html->0@,
            })
        },
        r is Err ==> r->Err_0@ is InvalidAddress,
{
}

/// With only one body, that body is the mail's, whichever it is, and the mail is not refused for it.
pub proof fn single_bodies_are_taken(
    from_text: &str,
    from: Mailbox,
    to: Vec<Mailbox>,
    cc: Vec<Mailbox>,
    bcc: Vec<Mailbox>,
    subject: &str,
    body: String,
    a: Result<OutgoingMail, MailError>,
    b: Result<OutgoingMail, MailError>,
    none: Result<OutgoingMail, MailError>,
)
    requires
        call_ensures(
            compose_mail,
            (from_text, Ok(from), Ok(to), Ok(cc), Ok(bcc), subject, Some(body), None),
            a,
        ),
        call_ensures(
            compose_mail,
            (from_text, Ok(from), Ok(to), Ok(cc), Ok(bcc), subject, None, Some(body)),
            b,
        ),
        call_ensures(
            compose_mail,
            (from_text, Ok(from), Ok(to), Ok(cc), Ok(bcc), subject, None, None),
            none,
        ),
    ensures
        a is Ok && a->Ok_0@.body == MailBodyView::Single(body@),
        b is Ok && b->Ok_0@.body == MailBodyView::Single(body@),
        none is Err && none->Err_0@ == MailErrorView::InvalidAddress(
            "either body-text or body-html must be provided"@,
        ),
        a->Ok_0@.from == from@ && a->Ok_0@.to == boxes(to@) && a->Ok_0@.cc == boxes(cc@)
            && a->Ok_0@.bcc == boxes(bcc@) && a->Ok_0@.subject == subject@,
{
}

/// The server for reading mail is its host and port; without a host there is none.
pub proof fn reading_needs_a_host(h: MailClientHandle, r: Result<String, String>)
    requires
        call_ensures(MailClientHandle::imap_address, (&h,), r),
    ensures
        r is Ok <==> h.config.imap_host is Some,
        r is Ok ==> r->Ok_0@ == h.config.imap_host->0@ + ":"@ + decimal(h.config.imap_port as nat),
        r is Err ==> r->Err_0@ == "IMAP host not configured"@,
{
}

/// What a listing leaves open: the inbox, all mails, and twenty of them.
pub proof fn listings_have_defaults(
    mailbox: Option<String>,
    criteria: Option<String>,
    limit: Option<u32>,
    r: ListRequest,
)
    requires
        call_ensures(list_request, (mailbox, criteria, limit), r),
    ensures
        mailbox is Some ==> r.mailbox@ == mailbox->0@,
        mailbox is None ==> r.mailbox@ == "INBOX"@,
        criteria is Some ==> r.criteria@ == criteria->0@,
        criteria is None ==> r.criteria@ == "ALL"@,
        limit is Some ==> r.limit == limit->0,
        limit is None ==> r.limit == 20,
{
}

/// The newest mails are those with the greatest numbers: as many as asked for or as there are, in
/// order, and none that is left out is greater than one that is not.
pub proof fn the_newest_mails_are_taken(uids: &Vec<u32>, limit: u32, r: Vec<u32>)
    requires
        call_ensures(recent_uids, (uids, limit), r),
    ensures
        uids@.len() <= limit ==> r@.len() == uids@.len(),
        uids@.len() > limit ==> r@.len() == limit,
        forall|i: int, k: int| 0 <= i < k < r@.len() ==> (#[trigger] r@[i]) <= (#[trigger] r@[k]),
        exists|rest: Seq<u32>|
            (#[trigger] (rest + r@)).to_multiset() == uids@.to_multiset() && forall|i: int, k: int|
                0 <= i < rest.len() && 0 <= k < r@.len() ==> (#[trigger] rest[i]) <= (
                #[trigger] r@[k]),
{
    let rest = choose|rest: Seq<u32>| #[trigger] left_out(rest, r@, uids@);
    assert((rest + r@).to_multiset() == uids@.to_multiset());
}

/// What failed in sending is told by its step; building and sending are failures to send, the
/// connection is a fault of the host.
pub proof fn failed_sendings_are_told(m: &str, a: MailError, b: MailError, c: MailError)
    requires
        call_ensures(send_error, (SendStep::BuildMail, m), a),
        call_ensures(send_error, (SendStep::OpenTransport, m), b),
        call_ensures(send_error, (SendStep::Send, m), c),
    ensures
        a@ == MailErrorView::SendFailed("failed to build email: "@ + m@),
        b@ == MailErrorView::Internal("failed to create SMTP transport: "@ + m@),
        c@ == MailErrorView::SendFailed("smtp send failed: "@ + m@),
{
}

/// What failed in connecting is told by its step.
pub proof fn failed_connections_are_told(
    name: &str,
    m: &str,
    a: String,
    b: String,
    c: String,
    d: String,
)
    requires
        call_ensures(connect_error, (ConnectStep::Reach, name, m), a),
        call_ensures(connect_error, (ConnectStep::ServerName, name, m), b),
        call_ensures(connect_error, (ConnectStep::Handshake, name, m), c),
        call_ensures(connect_error, (ConnectStep::Login, name, m), d),
    ensures
        a@ == "failed to connect to IMAP server '"@ + name@ + "': "@ + m@,
        b@ == "invalid IMAP server name '"@ + name@ + "': "@ + m@,
        c@ == "TLS handshake failed for IMAP: "@ + m@,
        d@ == "IMAP login failed: "@ + m@,
{
}

/// Reading without a connection is answered as an error of the guest's call; a step that failed is
/// an error of the host, and what was fetched is the answer.
pub proof fn readings_are_answered(
    outcome: ImapOutcome<Vec<FetchedMail>>,
    r: Result<Result<String, MailError>, MailError>,
)
    requires
        call_ensures(list_mails, (outcome,), r),
    ensures
        match outcome {
            ImapOutcome::NotConnected(e) => answer_view(r) == Ok::<
                Result<Seq<char>, MailErrorView>,
                MailErrorView,
            >(Err(MailErrorView::Internal(e@))),
            ImapOutcome::StepFailed { step, mailbox, message } => answer_view(r) == Err::<
                Result<Seq<char>, MailErrorView>,
                MailErrorView,
            >(step_error(step, mailbox@, message@)),
            ImapOutcome::Done(v) => answer_view(r) == Ok::<
                Result<Seq<char>, MailErrorView>,
                MailErrorView,
            >(Ok(array_text(listing_json(v@)))),
        },
{
}

} // verus!
