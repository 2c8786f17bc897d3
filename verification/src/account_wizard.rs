//! One account's worth of setup answers, as the wizard gathers them
//! and the settings form edits them, and the defaults an existing
//! account file offers.
use vstd::prelude::*;

use crate::config::AccountFile;
use crate::setup::{answer_of, answer_or_default, domain_of, looks_like_address, mail_domain, validate_address};
use crate::text::{append_str, chars_of, opt_text, string_of, trim};

verus! {

broadcast use vstd::string::group_string_axioms;

/// The answers for one account.
#[derive(Clone, Debug, PartialEq, Eq)]
pub struct AccountAnswers {
    pub name: String,
    pub address: String,
    pub from_name: String,
    pub imap_host: String,
    pub imap_user: String,
    pub smtp_host: String,
    pub password_cmd: String,
}

/// The text of an optional value, or nothing.
pub open spec fn or_empty(o: Option<String>) -> Seq<char> {
    match o {
        Some(s) => s@,
        None => Seq::empty(),
    }
}

fn cloned_or_empty(o: &Option<String>) -> (r: String)
    ensures
        r@ == or_empty(*o),
{
    match o {
        Some(s) => s.clone(),
        None => String::new(),
    }
}

impl AccountAnswers {
    /// The answers an existing account file stands for: its first
    /// identity's address and name, its IMAP connection, its SMTP host
    /// and its password command, each empty where the file has none.
    pub fn from_existing(account: &AccountFile) -> (r: AccountAnswers)
        ensures
            r.name@ == account.name@,
            r.address@ == (if account.identities@.len() > 0 {
                account.identities@[0].address@
            } else {
                Seq::empty()
            }),
            r.from_name@ == (if account.identities@.len() > 0 {
                or_empty(account.identities@[0].name)
            } else {
                Seq::empty()
            }),
            r.imap_host@ == account.imap_host@,
            r.imap_user@ == account.imap_user@,
            r.smtp_host@ == or_empty(account.smtp_host),
            r.password_cmd@ == or_empty(account.imap_password_cmd),
    {
        let (address, from_name) = if account.identities.len() > 0 {
            let first = &account.identities[0];
            (first.address.clone(), cloned_or_empty(&first.name))
        } else {
            (String::new(), String::new())
        };
        AccountAnswers {
            name: account.name.clone(),
            address,
            from_name,
            imap_host: account.imap_host.clone(),
            imap_user: account.imap_user.clone(),
            smtp_host: cloned_or_empty(&account.smtp_host),
            password_cmd: cloned_or_empty(&account.imap_password_cmd),
        }
    }
}

// ---------------------------------------------------------------
// The account questions
// ---------------------------------------------------------------

/// One question of the account Q&A, in the order they are asked.
#[derive(Clone, Copy, Debug, PartialEq, Eq, Structural)]
pub enum Question {
    Address,
    Name,
    FromName,
    ImapHost,
    ImapUser,
    SmtpHost,
}

/// The answers as texts: name, address, from name, IMAP host, IMAP
/// user, SMTP host, password command.
pub open spec fn answer_texts(a: AccountAnswers) -> Seq<Seq<char>> {
    seq![a.name@, a.address@, a.from_name@, a.imap_host@, a.imap_user@, a.smtp_host@, a.password_cmd@]
}

/// Where a question's answer goes among `answer_texts`.
pub open spec fn slot(q: Question) -> int {
    match q {
        Question::Name => 0,
        Question::Address => 1,
        Question::FromName => 2,
        Question::ImapHost => 3,
        Question::ImapUser => 4,
        Question::SmtpHost => 5,
    }
}

/// The prompt label of a question.
pub open spec fn label_of(q: Question) -> Seq<char> {
    match q {
        Question::Address => "e-mail address"@,
        Question::Name => "account name"@,
        Question::FromName => "from name (optional)"@,
        Question::ImapHost => "imap host"@,
        Question::ImapUser => "imap user"@,
        Question::SmtpHost => "smtp host"@,
    }
}

/// The question after `q`; the from name is asked only when the Q&A
/// asks for it.
pub open spec fn next_question(q: Question, ask_from_name: bool) -> Option<Question> {
    match q {
        Question::Address => Some(Question::Name),
        Question::Name => if ask_from_name {
            Some(Question::FromName)
        } else {
            Some(Question::ImapHost)
        },
        Question::FromName => Some(Question::ImapHost),
        Question::ImapHost => Some(Question::ImapUser),
        Question::ImapUser => Some(Question::SmtpHost),
        Question::SmtpHost => None,
    }
}

/// The Q&A in the abstract: the defaults it offers, whether it asks
/// for a from name, the question pending, and the answers so far.
pub struct PromptView {
    pub defaults: Option<Seq<Seq<char>>>,
    pub ask_from_name: bool,
    pub next: Option<Question>,
    pub answers: Seq<Seq<char>>,
}

/// The account Q&A, shared by a fresh setup (no defaults, no from
/// name) and the settings view's add and edit: with defaults, Enter
/// keeps the existing answer instead of demanding a fresh one. The
/// caller prints each question, reads the line and hands it back.
pub struct AccountPrompt {
    pub defaults: Option<AccountAnswers>,
    pub ask_from_name: bool,
    pub next: Option<Question>,
    pub answers: AccountAnswers,
}

impl View for AccountPrompt {
    type V = PromptView;

    open spec fn view(&self) -> PromptView {
        PromptView {
            defaults: match self.defaults {
                Some(d) => Some(answer_texts(d)),
                None => None,
            },
            ask_from_name: self.ask_from_name,
            next: self.next,
            answers: answer_texts(self.answers),
        }
    }
}

/// What Enter answers to `q`: the existing answer when editing,
/// otherwise `personal` for the name, the address for the IMAP user,
/// the address's domain behind `imap.` and `smtp.` for the hosts, and
/// nothing for the address and the from name.
pub open spec fn default_for(v: PromptView, q: Question) -> Seq<char> {
    match v.defaults {
        Some(d) => d[slot(q)],
        None => match q {
            Question::Address => Seq::empty(),
            Question::Name => "personal"@,
            Question::FromName => Seq::empty(),
            Question::ImapHost => "imap."@ + domain_of(v.answers[1]),
            Question::ImapUser => v.answers[1],
            Question::SmtpHost => "smtp."@ + domain_of(v.answers[1]),
        },
    }
}

pub open spec fn address_required() -> Seq<char> {
    "e-mail address is required"@
}

pub open spec fn not_an_address() -> Seq<char> {
    "that does not look like an e-mail address"@
}

/// One answered line: the pending question takes the answer and the
/// next one is asked, unless the address is missing (with nothing to
/// keep) or malformed, which repeats the question with a message.
pub open spec fn step_of(v: PromptView, line: Seq<char>) -> (PromptView, Option<Seq<char>>) {
    match v.next {
        None => (v, None),
        Some(q) => {
            let a = answer_of(line, default_for(v, q));
            if q == Question::Address && v.defaults is None && a.len() == 0 {
                (v, Some(address_required()))
            } else if q == Question::Address && !looks_like_address(a) {
                (v, Some(not_an_address()))
            } else {
                (PromptView { next: next_question(q, v.ask_from_name), answers: v.answers.update(slot(q), a), ..v }, None)
            }
        },
    }
}

/// The Q&A before its first question.
pub open spec fn start_view(defaults: Option<Seq<Seq<char>>>, ask_from_name: bool) -> PromptView {
    PromptView {
        defaults,
        ask_from_name,
        next: Some(Question::Address),
        answers: seq![Seq::empty(), Seq::empty(), Seq::empty(), Seq::empty(), Seq::empty(), Seq::empty(), Seq::empty()],
    }
}

/// The Q&A after answering `lines` in turn.
pub open spec fn replay(v: PromptView, lines: Seq<Seq<char>>) -> PromptView
    decreases lines.len(),
{
    if lines.len() == 0 {
        v
    } else {
        replay(step_of(v, lines[0]).0, lines.drop_first())
    }
}

fn empty_answers() -> (r: AccountAnswers)
    ensures
        answer_texts(r) == seq![Seq::<char>::empty(), Seq::empty(), Seq::empty(), Seq::empty(), Seq::empty(), Seq::empty(), Seq::empty()],
{
    let r = AccountAnswers {
        name: String::new(),
        address: String::new(),
        from_name: String::new(),
        imap_host: String::new(),
        imap_user: String::new(),
        smtp_host: String::new(),
        password_cmd: String::new(),
    };
    assert(answer_texts(r) =~= seq![Seq::<char>::empty(), Seq::empty(), Seq::empty(), Seq::empty(), Seq::empty(), Seq::empty(), Seq::empty()]);
    r
}

fn host_default(prefix: &str, address: &str) -> (r: String)
    ensures
        r@ == prefix@ + domain_of(address@),
{
    let mut out = chars_of(prefix);
    append_str(&mut out, mail_domain(address).as_str());
    string_of(&out)
}

fn copy_answers(a: &AccountAnswers) -> (r: AccountAnswers)
    ensures
        answer_texts(r) == answer_texts(*a),
{
    AccountAnswers {
        name: a.name.clone(),
        address: a.address.clone(),
        from_name: a.from_name.clone(),
        imap_host: a.imap_host.clone(),
        imap_user: a.imap_user.clone(),
        smtp_host: a.smtp_host.clone(),
        password_cmd: a.password_cmd.clone(),
    }
}

impl AccountPrompt {
    pub fn new(defaults: Option<AccountAnswers>, ask_from_name: bool) -> (r: AccountPrompt)
        ensures
            r@ == start_view(
                match defaults {
                    Some(d) => Some(answer_texts(d)),
                    None => None,
                },
                ask_from_name,
            ),
            r.defaults == defaults,
    {
        let r = AccountPrompt { defaults, ask_from_name, next: Some(Question::Address), answers: empty_answers() };
        r
    }

    fn label(q: Question) -> (r: &'static str)
        ensures
            r@ == label_of(q),
    {
        match q {
            Question::Address => "e-mail address",
            Question::Name => "account name",
            Question::FromName => "from name (optional)",
            Question::ImapHost => "imap host",
            Question::ImapUser => "imap user",
            Question::SmtpHost => "smtp host",
        }
    }

    fn default_answer(&self, q: Question) -> (r: String)
        ensures
            r@ == default_for(self@, q),
    {
        match &self.defaults {
            Some(d) => match q {
                Question::Name => d.name.clone(),
                Question::Address => d.address.clone(),
                Question::FromName => d.from_name.clone(),
                Question::ImapHost => d.imap_host.clone(),
                Question::ImapUser => d.imap_user.clone(),
                Question::SmtpHost => d.smtp_host.clone(),
            },
            None => match q {
                Question::Address => String::new(),
                Question::Name => "personal".to_owned(),
                Question::FromName => String::new(),
                Question::ImapHost => host_default("imap.", self.answers.address.as_str()),
                Question::ImapUser => self.answers.address.clone(),
                Question::SmtpHost => host_default("smtp.", self.answers.address.as_str()),
            },
        }
    }

    /// The pending question's label and what Enter answers, or `None`
    /// once every question is answered.
    pub fn question(&self) -> (r: Option<(String, String)>)
        ensures
            match self.next {
                None => r is None,
                Some(q) => r matches Some((l, d)) && l@ == label_of(q) && d@ == default_for(self@, q),
            },
    {
        match self.next {
            None => None,
            Some(q) => Some((Self::label(q).to_owned(), self.default_answer(q))),
        }
    }

    /// Takes the line typed at the pending question; a message to show
    /// before the question is asked again comes back when it is
    /// refused.
    pub fn answer(&mut self, line: &str) -> (r: Option<String>)
        ensures
            final(self)@ == step_of(old(self)@, line@).0,
            opt_text(r) == step_of(old(self)@, line@).1,
            final(self).defaults == old(self).defaults,
    {
        let q = match self.next {
            None => return None,
            Some(q) => q,
        };
        let default = self.default_answer(q);
        let a = answer_or_default(line, default.as_str());
        if q == Question::Address {
            if self.defaults.is_none() && a.unicode_len() == 0 {
                return Some("e-mail address is required".to_owned());
            }
            match validate_address(a.as_str()) {
                Ok(()) => {},
                Err(e) => return Some(e),
            }
        }
        let ghost before = answer_texts(self.answers);
        match q {
            Question::Name => self.answers.name = a,
            Question::Address => self.answers.address = a,
            Question::FromName => self.answers.from_name = a,
            Question::ImapHost => self.answers.imap_host = a,
            Question::ImapUser => self.answers.imap_user = a,
            Question::SmtpHost => self.answers.smtp_host = a,
        }
        assert(answer_texts(self.answers) =~= before.update(slot(q), a@));
        self.next = match q {
            Question::Address => Some(Question::Name),
            Question::Name => if self.ask_from_name {
                Some(Question::FromName)
            } else {
                Some(Question::ImapHost)
            },
            Question::FromName => Some(Question::ImapHost),
            Question::ImapHost => Some(Question::ImapUser),
            Question::ImapUser => Some(Question::SmtpHost),
            Question::SmtpHost => None,
        };
        None
    }

    /// The answers once every question is answered, with the password
    /// command still to be filled in by the secret step.
    pub fn finished(&self) -> (r: Option<AccountAnswers>)
        ensures
            self.next is None ==> (r matches Some(a) && answer_texts(a) == answer_texts(self.answers)),
            self.next is Some ==> r is None,
    {
        match self.next {
            None => Some(copy_answers(&self.answers)),
            Some(_) => None,
        }
    }
}

/// With defaults whose address is well formed, pressing Enter at every
/// question gives back the defaults (the password command aside, which
/// the secret step supplies): editing keeps what is not retyped.
pub proof fn law_enter_keeps_defaults(defaults: Seq<Seq<char>>, ask_from_name: bool)
    requires
        defaults.len() == 7,
        looks_like_address(defaults[1]),
    ensures
        ({
            let enters = Seq::new(if ask_from_name { 6 } else { 5 }, |i: int| Seq::<char>::empty());
            let end = replay(start_view(Some(defaults), ask_from_name), enters);
            &&& end.next is None
            &&& end.answers == (if ask_from_name {
                defaults.update(6, Seq::empty())
            } else {
                defaults.update(2, Seq::empty()).update(6, Seq::empty())
            })
        }),
{
    let e = Seq::<char>::empty();
    assert(trim(e).len() == 0);
    let n: int = if ask_from_name { 6 } else { 5 };
    let enters = Seq::new(n as nat, |i: int| Seq::<char>::empty());
    let v0 = start_view(Some(defaults), ask_from_name);
    let v1 = step_of(v0, e).0;
    let v2 = step_of(v1, e).0;
    let v3 = step_of(v2, e).0;
    let v4 = step_of(v3, e).0;
    let v5 = step_of(v4, e).0;
    assert(v1.answers == v0.answers.update(1, defaults[1]));
    assert(v2.answers == v1.answers.update(0, defaults[0]));
    if ask_from_name {
        let v6 = step_of(v5, e).0;
        assert(enters.drop_first().drop_first().drop_first().drop_first().drop_first().drop_first() =~= Seq::<Seq<char>>::empty());
        assert(replay(v0, enters) == replay(v1, enters.drop_first()));
        assert(enters.drop_first()[0] == e);
        assert(replay(v1, enters.drop_first()) == replay(v2, enters.drop_first().drop_first()));
        assert(replay(v2, enters.drop_first().drop_first()) == replay(v3, enters.drop_first().drop_first().drop_first()));
        assert(replay(v3, enters.drop_first().drop_first().drop_first()) == replay(v4, enters.drop_first().drop_first().drop_first().drop_first()));
        assert(replay(v4, enters.drop_first().drop_first().drop_first().drop_first()) == replay(v5, enters.drop_first().drop_first().drop_first().drop_first().drop_first()));
        assert(replay(v5, enters.drop_first().drop_first().drop_first().drop_first().drop_first()) == replay(v6, enters.drop_first().drop_first().drop_first().drop_first().drop_first().drop_first()));
        assert(v6.answers =~= defaults.update(6, Seq::empty()));
    } else {
        assert(enters.drop_first().drop_first().drop_first().drop_first().drop_first() =~= Seq::<Seq<char>>::empty());
        assert(replay(v0, enters) == replay(v1, enters.drop_first()));
        assert(replay(v1, enters.drop_first()) == replay(v2, enters.drop_first().drop_first()));
        assert(replay(v2, enters.drop_first().drop_first()) == replay(v3, enters.drop_first().drop_first().drop_first()));
        assert(replay(v3, enters.drop_first().drop_first().drop_first()) == replay(v4, enters.drop_first().drop_first().drop_first().drop_first()));
        assert(replay(v4, enters.drop_first().drop_first().drop_first().drop_first()) == replay(v5, enters.drop_first().drop_first().drop_first().drop_first().drop_first()));
        assert(v5.answers =~= defaults.update(2, Seq::empty()).update(6, Seq::empty()));
    }
}

} // verus!
