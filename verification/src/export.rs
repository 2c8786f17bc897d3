//! Encrypted maildir exports: the summary and errors they report,
//! the recipient keys they encrypt to, and the archive's default name.
//! Streaming the archive itself (tar, gzip, age, the file system)
//! is the caller's I/O.
use vstd::prelude::*;

use crate::text::{append_str, chars_of, decimal, first_index, lemma_first_index_is, push_decimal, string_of, trim, trimmed};

verus! {

broadcast use vstd::string::group_string_axioms;

#[verifier::external_type_specification]
#[verifier::external_body]
pub struct ExAgeRecipient(age::x25519::Recipient);

/// What one export did.
#[derive(Debug)]
pub struct ExportSummary {
    pub account: String,
    pub files: u64,
    pub bytes: u64,
    pub destination: String,
}

/// `exported ACCOUNT: N files, B bytes to DEST`
pub open spec fn summary_line(account: Seq<char>, files: nat, bytes: nat, destination: Seq<char>) -> Seq<char> {
    seq!['e', 'x', 'p', 'o', 'r', 't', 'e', 'd', ' '] + account + seq![':', ' '] + decimal(files)
        + seq![' ', 'f', 'i', 'l', 'e', 's', ',', ' '] + decimal(bytes) + seq![
        ' ',
        'b',
        'y',
        't',
        'e',
        's',
        ' ',
        't',
        'o',
        ' ',
    ] + destination
}

impl ExportSummary {
    /// The one-line report of this export.
    pub fn line(&self) -> (r: String)
        ensures
            r@ == summary_line(self.account@, self.files as nat, self.bytes as nat, self.destination@),
    {
        let mut out: Vec<char> = Vec::new();
        append_str(&mut out, "exported ");
        append_str(&mut out, self.account.as_str());
        append_str(&mut out, ": ");
        push_decimal(&mut out, self.files as u128);
        append_str(&mut out, " files, ");
        push_decimal(&mut out, self.bytes as u128);
        append_str(&mut out, " bytes to ");
        append_str(&mut out, self.destination.as_str());
        proof {
            reveal_strlit("exported ");
            reveal_strlit(": ");
            reveal_strlit(" files, ");
            reveal_strlit(" bytes to ");
        }
        assert(out@ =~= summary_line(self.account@, self.files as nat, self.bytes as nat, self.destination@));
        string_of(&out)
    }
}

/// Why an export failed.
#[derive(Debug)]
pub enum ExportError {
    MissingMaildir { account: String, path: String },
    BadRecipient { key: String, reason: String },
    Output { path: String, message: String },
    Archive { path: String, message: String },
    Encrypt(String),
    Verify { path: String, message: String },
}

/// The message an export error is reported with.
pub open spec fn export_error_text(error: ExportError) -> Seq<char> {
    match error {
        ExportError::MissingMaildir { account, path } => seq!['a', 'c', 'c', 'o', 'u', 'n', 't', ' ']
            + account@ + seq![' ', 'h', 'a', 's', ' ', 'n', 'o', ' ', 'm', 'a', 'i', 'l', 'd', 'i', 'r', ' ', 'a', 't', ' '] + path@,
        ExportError::BadRecipient { key, reason } => seq!['b', 'a', 'd', ' ', 'a', 'g', 'e', ' ', 'r', 'e', 'c', 'i', 'p', 'i', 'e', 'n', 't', ' ', '"']
            + key@ + seq!['"', ':', ' '] + reason@,
        ExportError::Output { path, message } => seq!['c', 'a', 'n', 'n', 'o', 't', ' ', 'w', 'r', 'i', 't', 'e', ' '] + path@
            + seq![':', ' '] + message@,
        ExportError::Archive { path, message } => seq!['c', 'a', 'n', 'n', 'o', 't', ' ', 'a', 'r', 'c', 'h', 'i', 'v', 'e', ' ']
            + path@ + seq![':', ' '] + message@,
        ExportError::Encrypt(message) => seq!['e', 'n', 'c', 'r', 'y', 'p', 't', 'i', 'o', 'n', ' ', 'f', 'a', 'i', 'l', 'e', 'd', ':', ' ']
            + message@,
        ExportError::Verify { path, message } => seq!['w', 'r', 'o', 't', 'e', ' '] + path@ + seq![
            ' ', 'b', 'u', 't', ' ', 'i', 't', 's', ' ', 'a', 'g', 'e', ' ', 'h', 'e', 'a', 'd', 'e', 'r', ' ', 'd', 'o', 'e', 's',
            ' ', 'n', 'o', 't', ' ', 'p', 'a', 'r', 's', 'e', ':', ' ',
        ] + message@,
    }
}

impl ExportError {
    /// The message this error is reported with.
    pub fn message(&self) -> (r: String)
        ensures
            r@ == export_error_text(*self),
    {
        let mut out: Vec<char> = Vec::new();
        match self {
            ExportError::MissingMaildir { account, path } => {
                append_str(&mut out, "account ");
                append_str(&mut out, account.as_str());
                append_str(&mut out, " has no maildir at ");
                append_str(&mut out, path.as_str());
                proof {
                    reveal_strlit("account ");
                    reveal_strlit(" has no maildir at ");
                }
            },
            ExportError::BadRecipient { key, reason } => {
                append_str(&mut out, "bad age recipient \"");
                append_str(&mut out, key.as_str());
                append_str(&mut out, "\": ");
                append_str(&mut out, reason.as_str());
                proof {
                    reveal_strlit("bad age recipient \"");
                    reveal_strlit("\": ");
                }
            },
            ExportError::Output { path, message } => {
                append_str(&mut out, "cannot write ");
                append_str(&mut out, path.as_str());
                append_str(&mut out, ": ");
                append_str(&mut out, message.as_str());
                proof {
                    reveal_strlit("cannot write ");
                    reveal_strlit(": ");
                }
            },
            ExportError::Archive { path, message } => {
                append_str(&mut out, "cannot archive ");
                append_str(&mut out, path.as_str());
                append_str(&mut out, ": ");
                append_str(&mut out, message.as_str());
                proof {
                    reveal_strlit("cannot archive ");
                    reveal_strlit(": ");
                }
            },
            ExportError::Encrypt(message) => {
                append_str(&mut out, "encryption failed: ");
                append_str(&mut out, message.as_str());
                proof {
                    reveal_strlit("encryption failed: ");
                }
            },
            ExportError::Verify { path, message } => {
                append_str(&mut out, "wrote ");
                append_str(&mut out, path.as_str());
                append_str(&mut out, " but its age header does not parse: ");
                append_str(&mut out, message.as_str());
                proof {
                    reveal_strlit("wrote ");
                    reveal_strlit(" but its age header does not parse: ");
                }
            },
        }
        assert(out@ =~= export_error_text(*self));
        string_of(&out)
    }
}

/// What age makes of `key` as an x25519 recipient: the recipient, or
/// why it refuses the key. A function of the key text alone.
pub uninterp spec fn age_parsed(key: Seq<char>) -> Result<age::x25519::Recipient, Seq<char>>;

/// Why age refuses `key` (`None` when it parses).
pub open spec fn age_rejection(key: Seq<char>) -> Option<Seq<char>> {
    match age_parsed(key) {
        Ok(_) => None,
        Err(reason) => Some(reason),
    }
}

/// A parse result with its reason as plain text.
pub open spec fn parse_view(r: Result<age::x25519::Recipient, String>) -> Result<age::x25519::Recipient, Seq<char>> {
    match r {
        Ok(x) => Ok(x),
        Err(reason) => Err(reason@),
    }
}

/// `age::x25519::Recipient::from_str`. What it gives is named by
/// `age_parsed`; the source gives one of three fixed reasons for a
/// refusal, which the contract lists.
#[verifier::external_body]
fn parse_age_recipient(key: &str) -> (r: Result<age::x25519::Recipient, String>)
    ensures
        age_parsed(key@) == parse_view(r),
        r matches Err(reason) ==> reason@ == "invalid Bech32 encoding"@ || reason@
            == "incorrect pubkey length"@ || reason@ == "incorrect HRP"@,
{
    key.parse::<age::x25519::Recipient>().map_err(|reason: &str| reason.to_string())
}

pub open spec fn rejected_fn() -> spec_fn(Seq<char>) -> bool {
    |key: Seq<char>| age_rejection(trim(key)) is Some
}

/// The first key, trimmed, that age refuses.
pub open spec fn first_bad_key(keys: Seq<Seq<char>>) -> Option<int> {
    first_index(keys, rejected_fn())
}

/// Parses `age1...` public keys, keeping the offending input in the
/// error so the user can see which key is broken.
pub fn parse_recipients(keys: &Vec<String>) -> (r: Result<Vec<age::x25519::Recipient>, ExportError>)
    ensures
        match first_bad_key(keys@.map_values(|k: String| k@)) {
            None => r matches Ok(v) && v@.len() == keys@.len() && forall|j: int|
                0 <= j < keys@.len() ==> age_parsed(trim(keys@[j]@)) == Ok::<age::x25519::Recipient, Seq<char>>(
                    #[trigger] v@[j],
                ),
            Some(i) => r matches Err(ExportError::BadRecipient { key, reason }) && key@ == keys@[i]@
                && Some(reason@) == age_rejection(trim(keys@[i]@)),
        },
{
    let ghost kv = keys@.map_values(|k: String| k@);
    let mut parsed: Vec<age::x25519::Recipient> = Vec::new();
    let mut i: usize = 0;
    while i < keys.len()
        invariant
            i <= keys.len(),
            kv == keys@.map_values(|k: String| k@),
            parsed@.len() == i,
            forall|j: int| 0 <= j < i ==> !(rejected_fn())(#[trigger] kv[j]),
            forall|j: int| 0 <= j < i ==> age_parsed(trim(keys@[j]@)) == Ok::<age::x25519::Recipient, Seq<char>>(
                #[trigger] parsed@[j],
            ),
        decreases keys.len() - i,
    {
        let key_chars = chars_of(keys[i].as_str());
        let trimmed_key = string_of(&trimmed(&key_chars));
        match parse_age_recipient(trimmed_key.as_str()) {
            Ok(recipient) => {
                parsed.push(recipient);
            },
            Err(reason) => {
                proof {
                    lemma_first_index_is(kv, rejected_fn(), i as int);
                }
                return Err(ExportError::BadRecipient { key: keys[i].clone(), reason });
            },
        }
        i = i + 1;
    }
    proof {
        lemma_first_index_is(kv, rejected_fn(), kv.len() as int);
    }
    Ok(parsed)
}

/// The archive name for `account` exported on `date`.
pub open spec fn archive_name_of(account: Seq<char>, date: Seq<char>) -> Seq<char> {
    account + seq!['-'] + date + seq!['.', 't', 'a', 'r', '.', 'g', 'z', '.', 'a', 'g', 'e']
}

/// `ACCOUNT-DATE.tar.gz.age`
pub fn archive_name(account: &str, date: &str) -> (r: String)
    ensures
        r@ == archive_name_of(account@, date@),
{
    let mut out: Vec<char> = chars_of(account);
    out.push('-');
    append_str(&mut out, date);
    append_str(&mut out, ".tar.gz.age");
    proof {
        reveal_strlit(".tar.gz.age");
    }
    assert(out@ =~= archive_name_of(account@, date@));
    string_of(&out)
}

/// An ASCII digit.
pub open spec fn is_digit(c: char) -> bool {
    '0' <= c && c <= '9'
}

/// The shape of a date as `chrono` writes `%Y-%m-%d`: the year in at
/// least four digits (a year past 9999 carries a leading `+`), then `-`,
/// the two-digit month, `-` and the two-digit day.
pub open spec fn date_shaped(date: Seq<char>) -> bool {
    let n = date.len() as int;
    &&& n >= 10
    &&& forall|i: int| 0 <= i < n - 6 ==> #[trigger] is_digit(date[i]) || (i == 0 && date[i] == '+')
    &&& date[n - 6] == '-' && date[n - 3] == '-'
    &&& is_digit(date[n - 5]) && is_digit(date[n - 4]) && is_digit(date[n - 2]) && is_digit(date[n - 1])
}

/// Today's UTC date as `chrono` formats `%Y-%m-%d`, or nothing when
/// the system clock reads before 1970 or past what chrono can hold
/// (where `chrono::Utc::now` would panic). Which date depends on the
/// clock, so only its shape is promised: from a clock past 1970 chrono
/// writes the year in four digits, or with a `+` and more digits past
/// 9999, and the month and day zero-padded to two digits. Whether the
/// clock can be read is not stated.
#[verifier::external_body]
fn utc_date_today() -> (r: Option<String>)
    ensures
        r matches Some(d) ==> date_shaped(d@),
{
    let since = std::time::SystemTime::now().duration_since(std::time::UNIX_EPOCH).ok()?;
    let seconds = i64::try_from(since.as_secs()).ok()?;
    let now = chrono::DateTime::from_timestamp(seconds, 0)?;
    Some(now.format("%Y-%m-%d").to_string())
}

/// The default archive name for an account exported today, or nothing
/// when the system clock gives no date.
pub fn archive_file_name(account: &str) -> (r: Option<String>)
    ensures
        r matches Some(name) ==> exists|date: Seq<char>| date_shaped(date) && name@ == archive_name_of(account@, date),
{
    match utc_date_today() {
        Some(date) => Some(archive_name(account, date.as_str())),
        None => None,
    }
}

} // verus!
