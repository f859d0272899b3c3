//! Notifications: e-mail and webhook texts, the TLS rule, and the bounded
//! queue that hands them to the sender without ever blocking the monitor.

use vstd::prelude::*;
use crate::config::Config;
use crate::text::{
    chars_of, extend_str, string_of, string_views, push_string, split, split_vec, trim, trim_vec,
};

verus! {

/// How the SMTP transport negotiates TLS.
#[derive(Debug, Clone, Copy, PartialEq, Eq, Structural)]
pub enum TlsMode {
    Wrapper,
    Required,
    Opportunistic,
}

/// Implicit TLS on port 465 when SSL is on, STARTTLS on any other port,
/// opportunistic TLS when SSL is off.
pub open spec fn spec_tls_mode(use_ssl: bool, port: u16) -> TlsMode {
    if use_ssl {
        if port == 465 { TlsMode::Wrapper } else { TlsMode::Required }
    } else {
        TlsMode::Opportunistic
    }
}

pub fn tls_mode(use_ssl: bool, port: u16) -> (m: TlsMode)
    ensures
        m == spec_tls_mode(use_ssl, port),
{
    if use_ssl {
        if port == 465 { TlsMode::Wrapper } else { TlsMode::Required }
    } else {
        TlsMode::Opportunistic
    }
}

/// The addresses of a `;`-separated list: each piece trimmed, empty pieces
/// dropped.
pub open spec fn address_list(pieces: Seq<Seq<char>>) -> Seq<Seq<char>>
    decreases pieces.len(),
{
    if pieces.len() == 0 {
        Seq::empty()
    } else {
        let t = trim(pieces.last());
        address_list(pieces.drop_last()) + if t.len() > 0 { seq![t] } else { Seq::empty() }
    }
}

/// Split a `;`-separated address list.
pub fn split_addresses(s: &str) -> (r: Vec<String>)
    ensures
        string_views(r@) == address_list(split(s@, ';')),
{
    let cs = chars_of(s);
    let pieces = split_vec(&cs, ';');
    let ghost sp = split(s@, ';');
    let mut out: Vec<String> = Vec::new();
    let mut i: usize = 0;
    assert(string_views(out@) =~= Seq::<Seq<char>>::empty());
    while i < pieces.len()
        invariant
            i <= pieces@.len(),
            pieces@.len() == sp.len(),
            sp == split(s@, ';'),
            forall|k: int| 0 <= k < pieces@.len() ==> (#[trigger] pieces@[k])@ == sp[k],
            string_views(out@) == address_list(sp.subrange(0, i as int)),
        decreases pieces.len() - i,
    {
        let t = trim_vec(&pieces[i]);
        proof {
            let pre = sp.subrange(0, i + 1);
            assert(pre.drop_last() =~= sp.subrange(0, i as int));
            assert(pre.last() == sp[i as int]);
        }
        if t.len() > 0 {
            push_string(&mut out, string_of(&t));
        }
        i = i + 1;
        assert(string_views(out@) =~= address_list(sp.subrange(0, i as int)));
    }
    assert(sp.subrange(0, sp.len() as int) =~= sp);
    out
}

/// No address of a split list is empty or has surrounding whitespace.
pub proof fn law_addresses_trimmed_nonempty(pieces: Seq<Seq<char>>)
    ensures
        forall|k: int|
            0 <= k < address_list(pieces).len() ==> (#[trigger] address_list(pieces)[k]).len() > 0
                && address_list(pieces)[k] == trim(address_list(pieces)[k]),
    decreases pieces.len(),
{
    if pieces.len() > 0 {
        law_addresses_trimmed_nonempty(pieces.drop_last());
        let a = address_list(pieces.drop_last());
        let t = trim(pieces.last());
        crate::text::lemma_trim_idempotent(pieces.last());
        assert forall|k: int| 0 <= k < address_list(pieces).len() implies (#[trigger] address_list(pieces)[k]).len()
            > 0 && address_list(pieces)[k] == trim(address_list(pieces)[k]) by {
            if k < a.len() {
                assert(address_list(pieces)[k] == a[k]);
            } else {
                assert(address_list(pieces)[k] == t);
            }
        }
    }
}

/// Subject of the dump e-mail.
pub open spec fn dump_subject(target: Seq<char>, machine: Seq<char>) -> Seq<char> {
    "[LogDump] Dump created for "@ + target + " on "@ + machine
}

/// Body of the dump e-mail, stamped `timestamp`.
pub open spec fn dump_body(target: Seq<char>, machine: Seq<char>, dump_path: Seq<char>, timestamp: Seq<char>) -> Seq<char> {
    "A process dump was captured.\r\n\r\nTarget:     "@ + target + "\r\nComputer:   "@ + machine
        + "\r\nDump File:  "@ + dump_path + "\r\nTimestamp:  "@ + timestamp + "\r\n"@
}

fn cat(parts: &Vec<char>) -> (s: String)
    ensures
        s@ == parts@,
{
    string_of(parts)
}

/// Subject and body of the e-mail announcing a dump, stamped `timestamp`.
pub fn dump_email_at(target: &str, machine: &str, dump_path: &str, timestamp: &str) -> (r: (String, String))
    ensures
        r.0@ == dump_subject(target@, machine@),
        r.1@ == dump_body(target@, machine@, dump_path@, timestamp@),
{
    let mut s: Vec<char> = Vec::new();
    extend_str(&mut s, "[LogDump] Dump created for ");
    extend_str(&mut s, target);
    extend_str(&mut s, " on ");
    extend_str(&mut s, machine);
    let mut b: Vec<char> = Vec::new();
    extend_str(&mut b, "A process dump was captured.\r\n\r\nTarget:     ");
    extend_str(&mut b, target);
    extend_str(&mut b, "\r\nComputer:   ");
    extend_str(&mut b, machine);
    extend_str(&mut b, "\r\nDump File:  ");
    extend_str(&mut b, dump_path);
    extend_str(&mut b, "\r\nTimestamp:  ");
    extend_str(&mut b, timestamp);
    extend_str(&mut b, "\r\n");
    (cat(&s), cat(&b))
}

/// Subject and body of the e-mail announcing a dump, stamped with the local
/// time.
pub fn dump_email(target: &str, machine: &str, dump_path: &str) -> (r: (String, String))
    ensures
        r.0@ == dump_subject(target@, machine@),
        exists|ts: Seq<char>| crate::clock::is_local_stamp(ts) && r.1@ == dump_body(target@, machine@, dump_path@, ts),
{
    let ts = crate::clock::local_timestamp();
    dump_email_at(target, machine, dump_path, ts.as_str())
}

/// Subject and body of the test e-mail, stamped `timestamp`.
pub fn test_email_at(machine: &str, timestamp: &str) -> (r: (String, String))
    ensures
        r.0@ == "[LogDump] Test email from "@ + machine@,
        r.1@ == "This is a test email from LogDump.\r\n\r\nComputer:   "@ + machine@ + "\r\nTimestamp:  "@
            + timestamp@ + "\r\n"@,
{
    let mut s: Vec<char> = Vec::new();
    extend_str(&mut s, "[LogDump] Test email from ");
    extend_str(&mut s, machine);
    let mut b: Vec<char> = Vec::new();
    extend_str(&mut b, "This is a test email from LogDump.\r\n\r\nComputer:   ");
    extend_str(&mut b, machine);
    extend_str(&mut b, "\r\nTimestamp:  ");
    extend_str(&mut b, timestamp);
    extend_str(&mut b, "\r\n");
    (cat(&s), cat(&b))
}

/// A Teams-style message card.
#[derive(Debug, Clone)]
pub struct WebhookPayload {
    pub type_: String,
    pub summary: String,
    pub theme_color: String,
    pub title: String,
    pub text: String,
}

/// The card announcing a dump, stamped `timestamp`: red, titled like the
/// e-mail subject, with the target, computer, dump file and time in bold.
pub fn webhook_payload_dump_at(target: &str, machine: &str, dump_path: &str, timestamp: &str) -> (p: WebhookPayload)
    ensures
        p.type_@ == "MessageCard"@,
        p.summary@ == "Dump created for "@ + target@,
        p.theme_color@ == "FF0000"@,
        p.title@ == dump_subject(target@, machine@),
        p.text@ == "**Target:** "@ + target@ + "\n\n**Computer:** "@ + machine@ + "\n\n**Dump File:** "@ + dump_path@
            + "\n\n**Timestamp:** "@ + timestamp@,
{
    let mut sm: Vec<char> = Vec::new();
    extend_str(&mut sm, "Dump created for ");
    extend_str(&mut sm, target);
    let (title, _) = dump_email_at(target, machine, dump_path, timestamp);
    let mut t: Vec<char> = Vec::new();
    extend_str(&mut t, "**Target:** ");
    extend_str(&mut t, target);
    extend_str(&mut t, "\n\n**Computer:** ");
    extend_str(&mut t, machine);
    extend_str(&mut t, "\n\n**Dump File:** ");
    extend_str(&mut t, dump_path);
    extend_str(&mut t, "\n\n**Timestamp:** ");
    extend_str(&mut t, timestamp);
    WebhookPayload {
        type_: String::from_str("MessageCard"),
        summary: cat(&sm),
        theme_color: String::from_str("FF0000"),
        title,
        text: cat(&t),
    }
}

/// The card announcing a dump, stamped with the local time.
pub fn webhook_payload_dump(target: &str, machine: &str, dump_path: &str) -> (p: WebhookPayload)
    ensures
        p.type_@ == "MessageCard"@,
        p.summary@ == "Dump created for "@ + target@,
        p.theme_color@ == "FF0000"@,
        p.title@ == dump_subject(target@, machine@),
        exists|ts: Seq<char>|
            crate::clock::is_local_stamp(ts) && p.text@ == "**Target:** "@ + target@ + "\n\n**Computer:** "@ + machine@ + "\n\n**Dump File:** "@
                + dump_path@ + "\n\n**Timestamp:** "@ + ts,
{
    let ts = crate::clock::local_timestamp();
    webhook_payload_dump_at(target, machine, dump_path, ts.as_str())
}

/// The amber card of a warning: subject as summary and title, the message as
/// text.
pub fn webhook_payload_warning(subject: &str, message: &str) -> (p: WebhookPayload)
    ensures
        p.type_@ == "MessageCard"@,
        p.summary@ == subject@,
        p.theme_color@ == "FFAA00"@,
        p.title@ == subject@,
        p.text@ == message@,
{
    WebhookPayload {
        type_: String::from_str("MessageCard"),
        summary: String::from_str(subject),
        theme_color: String::from_str("FFAA00"),
        title: String::from_str(subject),
        text: String::from_str(message),
    }
}

/// A notification waiting to be sent, with the settings it was queued with.
pub enum NotifyJob {
    DumpEmail { cfg: Config, dump_path: String },
    DumpWebhook { cfg: Config, dump_path: String },
    WarningEmail { cfg: Config, subject: String, message: String },
    WarningWebhook { cfg: Config, subject: String, message: String },
}

/// At most this many notifications wait; more are dropped.
pub const QUEUE_CAPACITY: usize = 64;

/// The queue after offering `job`: appended when there is room, else
/// unchanged.
pub open spec fn offered(q: Seq<NotifyJob>, job: NotifyJob) -> Seq<NotifyJob> {
    if q.len() < QUEUE_CAPACITY { q.push(job) } else { q }
}

/// Pending notifications, oldest first. Only [`NotifyQueue::enqueue`] adds
/// one, and never past [`QUEUE_CAPACITY`].
pub struct NotifyQueue {
    jobs: Vec<NotifyJob>,
}

impl NotifyQueue {
    /// The pending notifications, oldest first.
    pub closed spec fn pending(&self) -> Seq<NotifyJob> {
        self.jobs@
    }

    pub fn new() -> (q: NotifyQueue)
        ensures
            q.pending().len() == 0,
    {
        NotifyQueue { jobs: Vec::new() }
    }

    /// Queue a notification; answers `false` when the queue is full and the
    /// notification is dropped.
    pub fn enqueue(&mut self, job: NotifyJob) -> (accepted: bool)
        ensures
            accepted == (old(self).pending().len() < QUEUE_CAPACITY),
            final(self).pending() == offered(old(self).pending(), job),
    {
        if self.jobs.len() < QUEUE_CAPACITY {
            self.jobs.push(job);
            true
        } else {
            false
        }
    }

    /// The oldest pending notification, removed from the queue.
    pub fn take(&mut self) -> (job: Option<NotifyJob>)
        ensures
            old(self).pending().len() == 0 ==> job is None && final(self).pending() == old(self).pending(),
            old(self).pending().len() > 0 ==> job == Some(old(self).pending()[0]) && final(self).pending()
                == old(self).pending().drop_first(),
    {
        if self.jobs.len() == 0 {
            None
        } else {
            Some(self.jobs.remove(0))
        }
    }

    /// Number of pending notifications.
    pub fn len(&self) -> (n: usize)
        ensures
            n == self.pending().len(),
    {
        self.jobs.len()
    }

    /// Queue the announcements of a dump: an e-mail when e-mail is enabled,
    /// then a webhook post when webhooks are. Answers how many were dropped
    /// for want of room.
    pub fn enqueue_dump(&mut self, cfg: Config, dump_path: String) -> (dropped: usize)
        ensures
            ({
                let q0 = old(self).pending();
                let q1 = if cfg.email_enabled {
                    offered(q0, NotifyJob::DumpEmail { cfg: cfg, dump_path: dump_path })
                } else {
                    q0
                };
                let q2 = if cfg.webhook_enabled {
                    offered(q1, NotifyJob::DumpWebhook { cfg: cfg, dump_path: dump_path })
                } else {
                    q1
                };
                &&& final(self).pending() == q2
                &&& dropped == (if cfg.email_enabled && q0.len() >= QUEUE_CAPACITY { 1int } else { 0int })
                    + (if cfg.webhook_enabled && q1.len() >= QUEUE_CAPACITY { 1int } else { 0int })
            }),
    {
        let mut dropped: usize = 0;
        if cfg.email_enabled {
            let job = NotifyJob::DumpEmail { cfg: cfg.snapshot(), dump_path: dump_path.clone() };
            if !self.enqueue(job) {
                dropped = dropped + 1;
            }
        }
        if cfg.webhook_enabled {
            let job = NotifyJob::DumpWebhook { cfg, dump_path };
            if !self.enqueue(job) {
                dropped = dropped + 1;
            }
        }
        dropped
    }

    /// Queue a warning: an e-mail when e-mail is enabled, then a webhook post
    /// when webhooks are. Answers how many were dropped for want of room.
    pub fn enqueue_warning(&mut self, cfg: Config, subject: String, message: String) -> (dropped: usize)
        ensures
            ({
                let q0 = old(self).pending();
                let q1 = if cfg.email_enabled {
                    offered(q0, NotifyJob::WarningEmail { cfg: cfg, subject: subject, message: message })
                } else {
                    q0
                };
                let q2 = if cfg.webhook_enabled {
                    offered(q1, NotifyJob::WarningWebhook { cfg: cfg, subject: subject, message: message })
                } else {
                    q1
                };
                &&& final(self).pending() == q2
                &&& dropped == (if cfg.email_enabled && q0.len() >= QUEUE_CAPACITY { 1int } else { 0int })
                    + (if cfg.webhook_enabled && q1.len() >= QUEUE_CAPACITY { 1int } else { 0int })
            }),
    {
        let mut dropped: usize = 0;
        if cfg.email_enabled {
            let job = NotifyJob::WarningEmail {
                cfg: cfg.snapshot(),
                subject: subject.clone(),
                message: message.clone(),
            };
            if !self.enqueue(job) {
                dropped = dropped + 1;
            }
        }
        if cfg.webhook_enabled {
            let job = NotifyJob::WarningWebhook { cfg, subject, message };
            if !self.enqueue(job) {
                dropped = dropped + 1;
            }
        }
        dropped
    }
}

/// Queued notifications go out in the order they were queued: offering a
/// notification and taking the oldest gives the first one back while others
/// wait, and the new one when none did.
pub proof fn law_queue_first_in_first_out(q: Seq<NotifyJob>, job: NotifyJob)
    requires
        q.len() < QUEUE_CAPACITY,
    ensures
        offered(q, job)[0] == if q.len() == 0 { job } else { q[0] },
        offered(q, job).drop_first() == if q.len() == 0 { Seq::<NotifyJob>::empty() } else { q.drop_first().push(job) },
{
    assert(offered(q, job).drop_first() =~= if q.len() == 0 {
        Seq::<NotifyJob>::empty()
    } else {
        q.drop_first().push(job)
    });
}

/// The queue never holds more than its capacity, and a notification is
/// dropped only when the queue is full.
pub proof fn law_queue_bounded(q: Seq<NotifyJob>, job: NotifyJob)
    requires
        q.len() <= QUEUE_CAPACITY,
    ensures
        offered(q, job).len() <= QUEUE_CAPACITY,
        offered(q, job) == q ==> q.len() == QUEUE_CAPACITY,
{
    if q.len() < QUEUE_CAPACITY {
        assert(offered(q, job).len() == q.len() + 1);
    }
}

/// The text of the error lettre reports when it cannot read `s` as a mailbox
/// (`name <user@domain>` or `user@domain`); `None` when it can.
pub uninterp spec fn mailbox_error_text(s: Seq<char>) -> Option<Seq<char>>;

/// `s.parse::<lettre::message::Mailbox>()`, kept as the text of its error.
/// Claimed: the answer is a function of `s` alone (the parser reads only its
/// argument).
#[verifier::external_body]
fn mailbox_error(s: &str) -> (r: Option<String>)
    ensures
        crate::text::opt_view(r) == mailbox_error_text(s@),
{
    match s.parse::<lettre::message::Mailbox>() {
        Ok(_) => None,
        Err(e) => Some(e.to_string()),
    }
}

/// The error for the first address of `ads` lettre cannot read, labelled
/// `<label> '<address>': <error>`.
pub open spec fn first_bad_address(ads: Seq<Seq<char>>, label: Seq<char>) -> Option<Seq<char>>
    decreases ads.len(),
{
    if ads.len() == 0 {
        None
    } else {
        match mailbox_error_text(ads[0]) {
            Some(e) => Some(label + " '"@ + ads[0] + "': "@ + e),
            None => first_bad_address(ads.drop_first(), label),
        }
    }
}

/// The addresses of a message are usable: the sender, then every `To`, then
/// every `Cc` address (`;`-separated lists) must read as a mailbox; the first
/// that does not gives the error.
pub open spec fn address_check(from: Seq<char>, to: Seq<char>, cc: Seq<char>) -> Result<(), Seq<char>> {
    match mailbox_error_text(from) {
        Some(e) => Err("From: "@ + e),
        None => match first_bad_address(address_list(split(to, ';')), "To"@) {
            Some(e) => Err(e),
            None => match first_bad_address(address_list(split(cc, ';')), "Cc"@) {
                Some(e) => Err(e),
                None => Ok(()),
            },
        },
    }
}

fn first_bad(ads: &Vec<String>, label: &str) -> (r: Option<String>)
    ensures
        crate::text::opt_view(r) == first_bad_address(string_views(ads@), label@),
{
    let ghost v = string_views(ads@);
    let mut i: usize = 0;
    assert(v.subrange(0, v.len() as int) =~= v);
    while i < ads.len()
        invariant
            i <= ads@.len(),
            v == string_views(ads@),
            first_bad_address(v, label@) == first_bad_address(v.subrange(i as int, v.len() as int), label@),
        decreases ads.len() - i,
    {
        let ghost rest = v.subrange(i as int, v.len() as int);
        assert(rest[0] == ads@[i as int]@);
        match mailbox_error(ads[i].as_str()) {
            Some(e) => {
                let mut t: Vec<char> = Vec::new();
                extend_str(&mut t, label);
                extend_str(&mut t, " '");
                extend_str(&mut t, ads[i].as_str());
                extend_str(&mut t, "': ");
                extend_str(&mut t, e.as_str());
                return Some(string_of(&t));
            },
            None => {},
        }
        assert(rest.drop_first() =~= v.subrange(i + 1, v.len() as int));
        i = i + 1;
    }
    None
}

/// Check the addresses of a message before it is built.
pub fn check_addresses(from: &str, to: &str, cc: &str) -> (r: Result<(), String>)
    ensures
        match (r, address_check(from@, to@, cc@)) {
            (Ok(()), Ok(())) => true,
            (Err(e), Err(se)) => e@ == se,
            _ => false,
        },
{
    match mailbox_error(from) {
        Some(e) => {
            let mut t: Vec<char> = Vec::new();
            extend_str(&mut t, "From: ");
            extend_str(&mut t, e.as_str());
            return Err(string_of(&t));
        },
        None => {},
    }
    match first_bad(&split_addresses(to), "To") {
        Some(e) => return Err(e),
        None => {},
    }
    match first_bad(&split_addresses(cc), "Cc") {
        Some(e) => Err(e),
        None => Ok(()),
    }
}

/// SMTP authentication is used when a user name (not blank) is set.
pub fn uses_smtp_credentials(username: &str) -> (r: bool)
    ensures
        r == (trim(username@).len() > 0),
{
    trim_vec(&chars_of(username)).len() > 0
}

} // verus!
