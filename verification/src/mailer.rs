//! The mailer service's decisions: which recipients a mail goes to, how the
//! SMTP transport is set up, and the queue of delayed mails, where mails to
//! the same recipients with the same subject are merged into one.
use crate::text::{push_char, push_str, str_eq};
use vstd::prelude::*;

verus! {

/// Whether lettre reads the text as a mailbox (`Name <user@domain>` or a
/// bare address).
pub uninterp spec fn mailbox_accepted(s: Seq<char>) -> bool;

/// Calls `<lettre::message::Mailbox as FromStr>::from_str`; the contract
/// names whether it succeeds [`mailbox_accepted`].
#[verifier::external_body]
fn mailbox_valid(s: &str) -> (r: bool)
    ensures
        r == mailbox_accepted(s@),
{
    s.parse::<lettre::message::Mailbox>().is_ok()
}

/// Why a mail or the mailer's set-up was refused.
#[derive(PartialEq, Eq, Structural, Clone, Copy, Debug)]
pub enum MailError {
    /// A default recipient does not read as a mailbox.
    InvalidDefaultRecipient,
    /// The sender does not read as a mailbox.
    InvalidSender,
    /// No recipient was given that reads as a mailbox, and there are no
    /// defaults.
    NoRecipients,
    /// Recipients were named by login and none of them has an address.
    NotResolved,
}

/// The texts as values.
pub open spec fn texts_view(v: Seq<String>) -> Seq<Seq<char>> {
    v.map_values(|s: String| s@)
}

/// An optional text as a value.
pub open spec fn opt_text(o: Option<String>) -> Option<Seq<char>> {
    match o {
        Some(s) => Some(s@),
        None => None,
    }
}

/// Checks the configured default recipients: refused at the first that
/// does not read as a mailbox.
pub fn check_default_recipients(default_rcp: &Vec<String>) -> (r: Result<(), MailError>)
    ensures
        r is Ok <==> forall|i: int|
            0 <= i < default_rcp@.len() ==> mailbox_accepted(#[trigger] default_rcp@[i]@),
        r is Err ==> r == Err::<(), MailError>(MailError::InvalidDefaultRecipient),
{
    let mut i: usize = 0;
    while i < default_rcp.len()
        invariant
            i <= default_rcp@.len(),
            forall|j: int| 0 <= j < i ==> mailbox_accepted(#[trigger] default_rcp@[j]@),
        decreases default_rcp@.len() - i,
    {
        if !mailbox_valid(default_rcp[i].as_str()) {
            return Err(MailError::InvalidDefaultRecipient);
        }
        i = i + 1;
    }
    Ok(())
}

/// Checks the sender's address.
pub fn check_sender(from: &str) -> (r: Result<(), MailError>)
    ensures
        r is Ok <==> mailbox_accepted(from@),
        r is Err ==> r == Err::<(), MailError>(MailError::InvalidSender),
{
    if mailbox_valid(from) {
        Ok(())
    } else {
        Err(MailError::InvalidSender)
    }
}

/// The recipients that read as mailboxes, in their order.
pub open spec fn accepted_recipients(rcp: Seq<Seq<char>>) -> Seq<Seq<char>>
    decreases rcp.len(),
{
    if rcp.len() == 0 {
        Seq::empty()
    } else {
        let prev = accepted_recipients(rcp.drop_last());
        if mailbox_accepted(rcp.last()) {
            prev.push(rcp.last())
        } else {
            prev
        }
    }
}

/// Where a mail that is not delayed goes: the given recipients that read as
/// mailboxes (the others are skipped), or the defaults where none is given.
pub open spec fn recipients_spec(rcp: Seq<Seq<char>>, defaults: Seq<Seq<char>>) -> Result<
    Seq<Seq<char>>,
    MailError,
> {
    let chosen = if rcp.len() == 0 {
        defaults
    } else {
        accepted_recipients(rcp)
    };
    if chosen.len() == 0 {
        Err(MailError::NoRecipients)
    } else {
        Ok(chosen)
    }
}

fn copy_texts(v: &Vec<String>) -> (r: Vec<String>)
    ensures
        texts_view(r@) == texts_view(v@),
{
    let mut r: Vec<String> = Vec::new();
    let mut i: usize = 0;
    while i < v.len()
        invariant
            i <= v@.len(),
            texts_view(r@) == texts_view(v@.take(i as int)),
        decreases v@.len() - i,
    {
        let s = v[i].clone();
        let ghost before = r@;
        r.push(s);
        assert(texts_view(r@) =~= texts_view(before).push(v@[i as int]@));
        i = i + 1;
        assert(v@.take(i as int) =~= v@.take(i - 1).push(v@[i - 1]));
        assert(texts_view(v@.take(i as int)) =~= texts_view(v@.take(i - 1)).push(v@[i - 1]@));
    }
    assert(v@.take(v@.len() as int) =~= v@);
    r
}

/// Chooses the recipients of a mail that is sent at once.
pub fn select_recipients(rcp: &Vec<String>, defaults: &Vec<String>) -> (r: Result<
    Vec<String>,
    MailError,
>)
    ensures
        match r {
            Ok(v) => recipients_spec(texts_view(rcp@), texts_view(defaults@)) == Ok::<
                Seq<Seq<char>>,
                MailError,
            >(texts_view(v@)),
            Err(e) => recipients_spec(texts_view(rcp@), texts_view(defaults@)) == Err::<
                Seq<Seq<char>>,
                MailError,
            >(e),
        },
{
    let chosen = if rcp.len() == 0 {
        copy_texts(defaults)
    } else {
        let mut out: Vec<String> = Vec::new();
        let mut i: usize = 0;
        while i < rcp.len()
            invariant
                i <= rcp@.len(),
                texts_view(out@) == accepted_recipients(texts_view(rcp@.take(i as int))),
            decreases rcp@.len() - i,
        {
            assert(texts_view(rcp@.take(i + 1)).drop_last() =~= texts_view(rcp@.take(i as int)));
            assert(texts_view(rcp@.take(i + 1)).last() == rcp@[i as int]@);
            if mailbox_valid(rcp[i].as_str()) {
                let ghost before = out@;
                out.push(rcp[i].clone());
                assert(texts_view(out@) =~= texts_view(before).push(rcp@[i as int]@));
            }
            i = i + 1;
        }
        assert(rcp@.take(rcp@.len() as int) =~= rcp@);
        out
    };
    if chosen.len() == 0 {
        Err(MailError::NoRecipients)
    } else {
        Ok(chosen)
    }
}

/// The recipients of a send request: the given addresses, then those that
/// the logins resolved to; where logins were named and no address came of
/// either, the request is refused.
pub fn gather_recipients(rcp: Vec<String>, resolved: Vec<String>, has_logins: bool) -> (r: Result<
    Vec<String>,
    MailError,
>)
    ensures
        has_logins && rcp@.len() + resolved@.len() == 0 ==> r == Err::<Vec<String>, MailError>(
            MailError::NotResolved,
        ),
        !(has_logins && rcp@.len() + resolved@.len() == 0) ==> (r matches Ok(v) && v@ == rcp@
            + resolved@),
{
    let mut all = rcp;
    let mut more = resolved;
    all.append(&mut more);
    if has_logins && all.len() == 0 {
        Err(MailError::NotResolved)
    } else {
        Ok(all)
    }
}

/// The address that an authentication service gives in a user's profile:
/// taken only where it is there and not empty.
pub fn profile_email(value: Option<String>) -> (r: Option<String>)
    ensures
        match value {
            Some(a) => if a@.len() > 0 {
                r == Some(a)
            } else {
                r is None
            },
            None => r is None,
        },
{
    match value {
        Some(a) => {
            if a.unicode_len() > 0 {
                Some(a)
            } else {
                None
            }
        },
        None => None,
    }
}

/// How the transport reaches the server: `starttls` for a relay that
/// upgrades the connection, and the TLS mode.
#[derive(PartialEq, Eq, Structural, Clone, Copy, Debug)]
pub enum TlsMode {
    /// TLS is negotiated on the plain connection and must succeed.
    Required,
    /// No TLS.
    NoTls,
    /// The connection is TLS from the start.
    Wrapper,
}

/// The relay kind and the TLS mode for the `tls` and `ssl` settings: a
/// `tls` relay upgrades the connection; TLS is required for `tls` without
/// `ssl`, off with neither, and wraps the connection otherwise.
pub fn smtp_tls_plan(tls: bool, ssl: bool) -> (r: (bool, TlsMode))
    ensures
        r.0 == tls,
        r.1 == (if !ssl && tls {
            TlsMode::Required
        } else if !tls && !ssl {
            TlsMode::NoTls
        } else {
            TlsMode::Wrapper
        }),
{
    let mode = if !ssl && tls {
        TlsMode::Required
    } else if !tls && !ssl {
        TlsMode::NoTls
    } else {
        TlsMode::Wrapper
    };
    (tls, mode)
}

/// The credentials the transport logs in with: where a user name is set,
/// with the password or an empty one.
pub fn smtp_credentials(username: Option<String>, password: Option<String>) -> (r: Option<
    (String, String),
>)
    ensures
        match username {
            None => r is None,
            Some(u) => (r matches Some(c) && c.0@ == u@ && c.1@ == (match password {
                Some(p) => p@,
                None => Seq::<char>::empty(),
            })),
        },
{
    match username {
        None => None,
        Some(u) => {
            let p = match password {
                Some(p) => p,
                None => String::new(),
            };
            Some((u, p))
        },
    }
}

/// A mail waiting to be sent: its recipients, its subject, the time it is
/// held until and its text.
pub struct DelayedMail {
    pub rcp: Vec<String>,
    pub subject: Option<String>,
    pub until: u64,
    pub body: String,
}

/// A delayed mail as values.
pub open spec fn mail_view(m: DelayedMail) -> (Seq<Seq<char>>, Option<Seq<char>>, int, Seq<char>) {
    (texts_view(m.rcp@), opt_text(m.subject), m.until as int, m.body@)
}

/// The text of a mail after `body` is added to it: unchanged for an empty
/// `body`, else appended, on a new line where the text so far does not end
/// one.
pub open spec fn merged_body(old: Seq<char>, body: Seq<char>) -> Seq<char> {
    if body.len() == 0 {
        old
    } else if old.len() > 0 && old.last() != '\n' {
        old + seq!['\n'] + body
    } else {
        old + body
    }
}

/// The position of the mail to `rcp` with `subject`.
pub open spec fn mail_index(
    q: Seq<(Seq<Seq<char>>, Option<Seq<char>>, int, Seq<char>)>,
    rcp: Seq<Seq<char>>,
    subject: Option<Seq<char>>,
) -> Option<int> {
    if exists|i: int| 0 <= i < q.len() && q[i].0 == rcp && q[i].1 == subject {
        Some(choose|i: int| 0 <= i < q.len() && q[i].0 == rcp && q[i].1 == subject)
    } else {
        None
    }
}

/// No two mails share recipients and subject.
pub open spec fn keys_unique(q: Seq<(Seq<Seq<char>>, Option<Seq<char>>, int, Seq<char>)>) -> bool {
    forall|i: int, j: int|
        0 <= i < j < q.len() ==> !(#[trigger] q[i].0 == #[trigger] q[j].0 && q[i].1 == q[j].1)
}

/// The queue after a mail to `rcp` with `subject` is delayed by `delay`
/// from `now`: a waiting mail with the same recipients and subject takes
/// the text in, keeping its time; else the mail joins the queue.
pub open spec fn schedule_spec(
    q: Seq<(Seq<Seq<char>>, Option<Seq<char>>, int, Seq<char>)>,
    rcp: Seq<Seq<char>>,
    subject: Option<Seq<char>>,
    body: Seq<char>,
    now: int,
    delay: int,
) -> Seq<(Seq<Seq<char>>, Option<Seq<char>>, int, Seq<char>)> {
    match mail_index(q, rcp, subject) {
        Some(i) => q.update(i, (q[i].0, q[i].1, q[i].2, merged_body(q[i].3, body))),
        None => q.push((rcp, subject, now + delay, body)),
    }
}

/// Whether a mail is due at `now`: it was held until before then.
pub open spec fn is_due(m: (Seq<Seq<char>>, Option<Seq<char>>, int, Seq<char>), now: int) -> bool {
    m.2 < now
}

/// A mail as it is handed out for sending: recipients, subject, text.
pub open spec fn sent_view(m: (Seq<Seq<char>>, Option<Seq<char>>, int, Seq<char>)) -> (
    Seq<Seq<char>>,
    Option<Seq<char>>,
    Seq<char>,
) {
    (m.0, m.1, m.3)
}

/// The mails due at `now`, in queue order, as handed out.
pub open spec fn due_mails(q: Seq<(Seq<Seq<char>>, Option<Seq<char>>, int, Seq<char>)>, now: int) -> Seq<
    (Seq<Seq<char>>, Option<Seq<char>>, Seq<char>),
>
    decreases q.len(),
{
    if q.len() == 0 {
        Seq::empty()
    } else if is_due(q.last(), now) {
        due_mails(q.drop_last(), now).push(sent_view(q.last()))
    } else {
        due_mails(q.drop_last(), now)
    }
}

/// The mails not yet due at `now`, in queue order.
pub open spec fn kept_mails(q: Seq<(Seq<Seq<char>>, Option<Seq<char>>, int, Seq<char>)>, now: int) -> Seq<
    (Seq<Seq<char>>, Option<Seq<char>>, int, Seq<char>),
>
    decreases q.len(),
{
    if q.len() == 0 {
        Seq::empty()
    } else if is_due(q.last(), now) {
        kept_mails(q.drop_last(), now)
    } else {
        kept_mails(q.drop_last(), now).push(q.last())
    }
}

/// The queue with every mail held until `now`.
pub open spec fn released(q: Seq<(Seq<Seq<char>>, Option<Seq<char>>, int, Seq<char>)>, now: int) -> Seq<
    (Seq<Seq<char>>, Option<Seq<char>>, int, Seq<char>),
> {
    q.map_values(|m: (Seq<Seq<char>>, Option<Seq<char>>, int, Seq<char>)| (m.0, m.1, now, m.3))
}

proof fn lemma_kept_from_queue(q: Seq<(Seq<Seq<char>>, Option<Seq<char>>, int, Seq<char>)>, now: int)
    ensures
        forall|k: int|
            0 <= k < kept_mails(q, now).len() ==> exists|j: int|
                0 <= j < q.len() && #[trigger] kept_mails(q, now)[k] == q[j],
    decreases q.len(),
{
    if q.len() > 0 {
        lemma_kept_from_queue(q.drop_last(), now);
        let prev = kept_mails(q.drop_last(), now);
        assert forall|k: int| 0 <= k < kept_mails(q, now).len() implies exists|j: int|
            0 <= j < q.len() && #[trigger] kept_mails(q, now)[k] == q[j] by {
            if k < prev.len() {
                let j = choose|j: int|
                    0 <= j < q.drop_last().len() && #[trigger] prev[k] == q.drop_last()[j];
                assert(kept_mails(q, now)[k] == q[j]);
            } else {
                assert(kept_mails(q, now)[k] == q[q.len() - 1]);
            }
        }
    }
}

proof fn lemma_kept_unique(q: Seq<(Seq<Seq<char>>, Option<Seq<char>>, int, Seq<char>)>, now: int)
    requires
        keys_unique(q),
    ensures
        keys_unique(kept_mails(q, now)),
    decreases q.len(),
{
    if q.len() > 0 {
        let d = q.drop_last();
        assert(keys_unique(d)) by {
            assert forall|i: int, j: int| 0 <= i < j < d.len() implies !(#[trigger] d[i].0
                == #[trigger] d[j].0 && d[i].1 == d[j].1) by {
                assert(d[i] == q[i] && d[j] == q[j]);
            }
        }
        lemma_kept_unique(d, now);
        lemma_kept_from_queue(d, now);
        let prev = kept_mails(d, now);
        let cur = kept_mails(q, now);
        if !is_due(q.last(), now) {
            assert forall|i: int, j: int| 0 <= i < j < cur.len() implies !(#[trigger] cur[i].0
                == #[trigger] cur[j].0 && cur[i].1 == cur[j].1) by {
                if j == cur.len() - 1 {
                    assert(cur[i] == prev[i]);
                    let k = choose|k: int| 0 <= k < d.len() && #[trigger] prev[i] == d[k];
                    assert(d[k] == q[k]);
                    assert(cur[j] == q[q.len() - 1]);
                    assert(!(q[k].0 == q[q.len() - 1].0 && q[k].1 == q[q.len() - 1].1));
                } else {
                    assert(cur[i] == prev[i] && cur[j] == prev[j]);
                }
            }
        }
    }
}

/// Mails handed out for sending, as values.
pub open spec fn sent_list_view(v: Seq<(Vec<String>, Option<String>, String)>) -> Seq<
    (Seq<Seq<char>>, Option<Seq<char>>, Seq<char>),
> {
    v.map_values(|t: (Vec<String>, Option<String>, String)| (texts_view(t.0@), opt_text(t.1), t.2@))
}

/// The queue of delayed mails.
pub struct DelayedMails {
    mails: Vec<DelayedMail>,
}

impl View for DelayedMails {
    type V = Seq<(Seq<Seq<char>>, Option<Seq<char>>, int, Seq<char>)>;

    closed spec fn view(&self) -> Seq<(Seq<Seq<char>>, Option<Seq<char>>, int, Seq<char>)> {
        self.mails@.map_values(|m: DelayedMail| mail_view(m))
    }
}

fn texts_eq(a: &Vec<String>, b: &Vec<String>) -> (r: bool)
    ensures
        r == (texts_view(a@) == texts_view(b@)),
{
    if a.len() != b.len() {
        return false;
    }
    let mut i: usize = 0;
    while i < a.len()
        invariant
            a@.len() == b@.len(),
            i <= a@.len(),
            forall|j: int| 0 <= j < i ==> a@[j]@ == b@[j]@,
        decreases a@.len() - i,
    {
        if !str_eq(a[i].as_str(), b[i].as_str()) {
            assert(texts_view(a@)[i as int] != texts_view(b@)[i as int]);
            return false;
        }
        i = i + 1;
    }
    assert(texts_view(a@) =~= texts_view(b@));
    true
}

fn opt_text_eq(a: &Option<String>, b: &Option<String>) -> (r: bool)
    ensures
        r == (opt_text(*a) == opt_text(*b)),
{
    match (a, b) {
        (Some(x), Some(y)) => str_eq(x.as_str(), y.as_str()),
        (None, None) => true,
        _ => false,
    }
}

impl DelayedMails {
    /// The queue's well-formedness: no two mails share recipients and
    /// subject.
    pub closed spec fn wf(&self) -> bool {
        keys_unique(self@)
    }

    /// An empty queue.
    pub fn new() -> (r: DelayedMails)
        ensures
            r.wf(),
            r@ == Seq::<(Seq<Seq<char>>, Option<Seq<char>>, int, Seq<char>)>::empty(),
    {
        let r = DelayedMails { mails: Vec::new() };
        assert(r@ =~= Seq::<(Seq<Seq<char>>, Option<Seq<char>>, int, Seq<char>)>::empty());
        r
    }

    /// Whether no mail waits.
    pub fn is_empty(&self) -> (r: bool)
        ensures
            r == (self@.len() == 0),
    {
        self.mails.len() == 0
    }

    fn find(&self, rcp: &Vec<String>, subject: &Option<String>) -> (r: Option<usize>)
        requires
            self.wf(),
        ensures
            match r {
                Some(i) => mail_index(self@, texts_view(rcp@), opt_text(*subject)) == Some(
                    i as int,
                ),
                None => mail_index(self@, texts_view(rcp@), opt_text(*subject)) is None,
            },
    {
        let ghost key = (texts_view(rcp@), opt_text(*subject));
        let mut i: usize = 0;
        while i < self.mails.len()
            invariant
                i <= self@.len(),
                self@.len() == self.mails@.len(),
                keys_unique(self@),
                key == (texts_view(rcp@), opt_text(*subject)),
                forall|j: int|
                    0 <= j < i ==> !(#[trigger] self@[j].0 == key.0 && self@[j].1 == key.1),
            decreases self.mails@.len() - i,
        {
            let m = &self.mails[i];
            assert(self@[i as int] == mail_view(self.mails@[i as int]));
            if texts_eq(&m.rcp, rcp) && opt_text_eq(&m.subject, subject) {
                proof {
                    let q = self@;
                    assert(0 <= i < q.len() && q[i as int].0 == key.0 && q[i as int].1 == key.1);
                    let c = choose|k: int| 0 <= k < q.len() && q[k].0 == key.0 && q[k].1 == key.1;
                    if c != i {
                        if c < i {
                            assert(!(q[c].0 == key.0 && q[c].1 == key.1));
                        } else {
                            assert(!(q[i as int].0 == q[c].0 && q[i as int].1 == q[c].1));
                        }
                    }
                }
                return Some(i);
            }
            i = i + 1;
        }
        None
    }

    /// Whether a mail to `rcp` with `subject` waits.
    pub fn holds(&self, rcp: &Vec<String>, subject: &Option<String>) -> (r: bool)
        requires
            self.wf(),
        ensures
            r == mail_index(self@, texts_view(rcp@), opt_text(*subject)) is Some,
    {
        self.find(rcp, subject).is_some()
    }

    /// Holds a mail to `rcp` with `subject` for `delay` from `now`; a mail
    /// already waiting for the same recipients and subject takes the text
    /// in.
    pub fn schedule(
        &mut self,
        rcp: Vec<String>,
        subject: Option<String>,
        body: String,
        now: u64,
        delay: u64,
    )
        requires
            old(self).wf(),
            mail_index(old(self)@, texts_view(rcp@), opt_text(subject)) is None ==> now + delay
                <= u64::MAX,
        ensures
            final(self).wf(),
            final(self)@ == schedule_spec(
                old(self)@,
                texts_view(rcp@),
                opt_text(subject),
                body@,
                now as int,
                delay as int,
            ),
    {
        let ghost q = self@;
        match self.find(&rcp, &subject) {
            Some(i) => {
                let cur = &self.mails[i];
                assert(q[i as int] == mail_view(*cur));
                let mut text = cur.body.clone();
                if body.as_str().unicode_len() > 0 {
                    let tl = text.as_str().unicode_len();
                    if tl > 0 && text.as_str().get_char(tl - 1) != '\n' {
                        push_char(&mut text, '\n');
                    }
                    push_str(&mut text, body.as_str());
                }
                let mail = DelayedMail {
                    rcp: copy_texts(&cur.rcp),
                    subject: clone_text(&cur.subject),
                    until: cur.until,
                    body: text,
                };
                assert(mail_view(mail) == (q[i as int].0, q[i as int].1, q[i as int].2, merged_body(
                    q[i as int].3,
                    body@,
                )));
                self.mails.set(i, mail);
                assert(self@ =~= q.update(
                    i as int,
                    (q[i as int].0, q[i as int].1, q[i as int].2, merged_body(q[i as int].3, body@)),
                ));
            },
            None => {
                let ghost key = (texts_view(rcp@), opt_text(subject));
                let mail = DelayedMail { rcp, subject, until: now + delay, body };
                assert(mail_view(mail).0 == key.0 && mail_view(mail).1 == key.1);
                self.mails.push(mail);
                assert(self@ =~= q.push(mail_view(mail)));
                assert forall|j: int| 0 <= j < q.len() implies !(#[trigger] q[j].0 == key.0 && q[j].1
                    == key.1) by {}
            },
        }
    }
    /// Takes out the mails due at `now` (held until before it), in queue
    /// order, for sending; the others stay, in their order.
    pub fn take_due(&mut self, now: u64) -> (r: Vec<(Vec<String>, Option<String>, String)>)
        requires
            old(self).wf(),
        ensures
            final(self).wf(),
            final(self)@ == kept_mails(old(self)@, now as int),
            sent_list_view(r@) == due_mails(old(self)@, now as int),
    {
        let ghost q = self@;
        let mut kept: Vec<DelayedMail> = Vec::new();
        let mut due: Vec<(Vec<String>, Option<String>, String)> = Vec::new();
        let mut i: usize = 0;
        while i < self.mails.len()
            invariant
                self@ == q,
                q.len() == self.mails@.len(),
                i <= q.len(),
                kept@.map_values(|m: DelayedMail| mail_view(m)) == kept_mails(q.take(i as int), now as int),
                sent_list_view(due@) == due_mails(q.take(i as int), now as int),
            decreases q.len() - i,
        {
            let m = &self.mails[i];
            assert(q[i as int] == mail_view(*m));
            assert(q.take(i + 1).drop_last() =~= q.take(i as int));
            assert(q.take(i + 1).last() == q[i as int]);
            if m.until < now {
                let ghost before = due@;
                due.push((copy_texts(&m.rcp), clone_text(&m.subject), m.body.clone()));
                assert(sent_list_view(due@) =~= sent_list_view(before).push(sent_view(q[i as int])));
            } else {
                let ghost before = kept@;
                kept.push(clone_mail(m));
                assert(kept@.map_values(|m: DelayedMail| mail_view(m)) =~= before.map_values(
                    |m: DelayedMail| mail_view(m),
                ).push(q[i as int]));
            }
            i = i + 1;
        }
        assert(q.take(q.len() as int) =~= q);
        self.mails = kept;
        proof {
            lemma_kept_unique(q, now as int);
        }
        due
    }

    /// Holds every mail until `now` only, so that all are sent at the next
    /// round: done when the service stops.
    pub fn release_all(&mut self, now: u64)
        requires
            old(self).wf(),
        ensures
            final(self).wf(),
            final(self)@ == released(old(self)@, now as int),
    {
        let ghost q = self@;
        let mut i: usize = 0;
        while i < self.mails.len()
            invariant
                i <= q.len(),
                q.len() == self.mails@.len(),
                keys_unique(q),
                forall|j: int| 0 <= j < i ==> #[trigger] self@[j] == released(q, now as int)[j],
                forall|j: int| i <= j < q.len() ==> #[trigger] self@[j] == q[j],
            decreases q.len() - i,
        {
            let m = &self.mails[i];
            assert(self@[i as int] == mail_view(*m));
            let mut fresh = clone_mail(m);
            fresh.until = now;
            let ghost before = self@;
            self.mails.set(i, fresh);
            assert forall|j: int| 0 <= j < q.len() && j != i implies #[trigger] self@[j] == before[j] by {}
            i = i + 1;
        }
        assert(self@ =~= released(q, now as int));
        assert forall|a: int, b: int| 0 <= a < b < self@.len() implies !(#[trigger] self@[a].0
            == #[trigger] self@[b].0 && self@[a].1 == self@[b].1) by {
            assert(self@[a].0 == q[a].0 && self@[a].1 == q[a].1);
            assert(self@[b].0 == q[b].0 && self@[b].1 == q[b].1);
        }
    }
}

fn clone_mail(m: &DelayedMail) -> (r: DelayedMail)
    ensures
        mail_view(r) == mail_view(*m),
{
    DelayedMail {
        rcp: copy_texts(&m.rcp),
        subject: clone_text(&m.subject),
        until: m.until,
        body: m.body.clone(),
    }
}

fn clone_text(o: &Option<String>) -> (r: Option<String>)
    ensures
        opt_text(r) == opt_text(*o),
{
    match o {
        Some(s) => Some(s.clone()),
        None => None,
    }
}

/// Mails to the same recipients with the same subject become one: the
/// second one's text is added to the first one's, which keeps its time.
pub proof fn law_same_key_merges(
    q: Seq<(Seq<Seq<char>>, Option<Seq<char>>, int, Seq<char>)>,
    rcp: Seq<Seq<char>>,
    subject: Option<Seq<char>>,
    first: Seq<char>,
    second: Seq<char>,
    now1: int,
    delay1: int,
    now2: int,
    delay2: int,
)
    requires
        mail_index(q, rcp, subject) is None,
    ensures
        schedule_spec(
            schedule_spec(q, rcp, subject, first, now1, delay1),
            rcp,
            subject,
            second,
            now2,
            delay2,
        ) == q.push((rcp, subject, now1 + delay1, merged_body(first, second))),
{
    let q1 = schedule_spec(q, rcp, subject, first, now1, delay1);
    assert(q1 == q.push((rcp, subject, now1 + delay1, first)));
    let n = q.len() as int;
    assert(q1[n].0 == rcp && q1[n].1 == subject);
    let i = choose|i: int| 0 <= i < q1.len() && q1[i].0 == rcp && q1[i].1 == subject;
    if i < n {
        assert(q[i] == q1[i]);
        assert(false);
    }
    assert(mail_index(q1, rcp, subject) == Some(n));
    assert(q1.update(n, (q1[n].0, q1[n].1, q1[n].2, merged_body(q1[n].3, second))) =~= q.push(
        (rcp, subject, now1 + delay1, merged_body(first, second)),
    ));
}

/// Each mail is either handed out or kept, never both: the counts add up
/// to the queue's, and no kept mail is due.
pub proof fn law_due_or_kept(q: Seq<(Seq<Seq<char>>, Option<Seq<char>>, int, Seq<char>)>, now: int)
    ensures
        due_mails(q, now).len() + kept_mails(q, now).len() == q.len(),
        forall|k: int| 0 <= k < kept_mails(q, now).len() ==> !is_due(#[trigger] kept_mails(q, now)[k], now),
    decreases q.len(),
{
    if q.len() > 0 {
        law_due_or_kept(q.drop_last(), now);
        let prev = kept_mails(q.drop_last(), now);
        assert forall|k: int| 0 <= k < kept_mails(q, now).len() implies !is_due(
            #[trigger] kept_mails(q, now)[k],
            now,
        ) by {
            if k < prev.len() {
                assert(kept_mails(q, now)[k] == prev[k]);
            }
        }
    }
}

/// When the service stops, every mail is released and the next round sends
/// them all, in queue order, and leaves the queue empty.
pub proof fn law_release_sends_all(
    q: Seq<(Seq<Seq<char>>, Option<Seq<char>>, int, Seq<char>)>,
    stop: int,
    later: int,
)
    requires
        stop < later,
    ensures
        due_mails(released(q, stop), later) == q.map_values(
            |m: (Seq<Seq<char>>, Option<Seq<char>>, int, Seq<char>)| sent_view(m),
        ),
        kept_mails(released(q, stop), later).len() == 0,
    decreases q.len(),
{
    if q.len() > 0 {
        law_release_sends_all(q.drop_last(), stop, later);
        assert(released(q, stop).drop_last() =~= released(q.drop_last(), stop));
        assert(q.map_values(|m: (Seq<Seq<char>>, Option<Seq<char>>, int, Seq<char>)| sent_view(m))
            =~= q.drop_last().map_values(
            |m: (Seq<Seq<char>>, Option<Seq<char>>, int, Seq<char>)| sent_view(m),
        ).push(sent_view(q.last())));
    } else {
        assert(released(q, stop) =~= Seq::<(Seq<Seq<char>>, Option<Seq<char>>, int, Seq<char>)>::empty());
        assert(q.map_values(|m: (Seq<Seq<char>>, Option<Seq<char>>, int, Seq<char>)| sent_view(m))
            =~= Seq::<(Seq<Seq<char>>, Option<Seq<char>>, Seq<char>)>::empty());
    }
}

} // verus!
