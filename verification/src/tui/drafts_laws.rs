//! What a saved draft promises: `:resume` reads back the fields, the
//! seal plan, the attachment paths and the body it was saved with.
use vstd::prelude::*;

use crate::sendmail::blank_line_from;
use crate::text::{
    ascii_lowercase, clean_line, clean_lines, is_char, is_ws, join_lines, join_with, lemma_first_index_is,
    lemma_join_lines_prepend, lemma_leading_ws, lemma_set_end_len_is, lemma_trimmed_end_len_is, not_in_set_fn,
    not_ws_fn, split_lines, strip_cr, trim, trim_chars, trim_start, words, words_from,
};
use crate::tui::compose_assembly::bare_address_of;
use crate::tui::compose::ComposeState;
use crate::tui::drafts::{
    apply_header, apply_line, apply_lines, attachment_lines, body_only, bracketed, draft_lines, draft_parts_of, draft_text,
    from_name_of, id_list_of, on_off, parsed_draft, reference_lines, reply_lines, single_id_of, DraftParts,
    DraftView,
};

verus! {

/// A value without whitespace at either end.
pub open spec fn edge_clean(v: Seq<char>) -> bool {
    v.len() == 0 || (!is_ws(v[0]) && !is_ws(v.last()))
}

proof fn lemma_trim_edge_clean(v: Seq<char>)
    requires
        edge_clean(v),
    ensures
        trim(v) == v,
{
    if v.len() > 0 {
        lemma_first_index_is(v, not_ws_fn(), 0);
    }
    lemma_leading_ws(v);
    assert(trim_start(v) =~= v);
    lemma_trimmed_end_len_is(v, v.len() as int);
    assert(v.take(v.len() as int) =~= v);
}

proof fn lemma_trim_after_space(v: Seq<char>)
    requires
        edge_clean(v),
    ensures
        trim(seq![' '] + v) == v,
{
    let s = seq![' '] + v;
    assert(is_ws(' '));
    if v.len() > 0 {
        assert(s[1] == v[0]);
        assert forall|j: int| 0 <= j < 1 implies !(not_ws_fn())(#[trigger] s[j]) by {}
        lemma_first_index_is(s, not_ws_fn(), 1);
        lemma_leading_ws(s);
        assert(trim_start(s) =~= v);
        lemma_trim_edge_clean(v);
    } else {
        assert forall|j: int| 0 <= j < s.len() implies !(not_ws_fn())(#[trigger] s[j]) by {}
        lemma_first_index_is(s, not_ws_fn(), s.len() as int);
        lemma_leading_ws(s);
        assert(trim_start(s) =~= Seq::<char>::empty());
        lemma_trimmed_end_len_is(Seq::<char>::empty(), 0);
        assert(trim(s) =~= v);
    }
}

/// A `Key: value` line applies as its header.
proof fn lemma_key_line(d: DraftView, key: Seq<char>, v: Seq<char>)
    requires
        key.len() > 0,
        forall|i: int| 0 <= i < key.len() ==> #[trigger] key[i] != ':' && !is_ws(key[i]),
        edge_clean(v),
    ensures
        apply_line(d, key + seq![':', ' '] + v) == apply_header(d, key, v),
        clean_line(v) ==> clean_line(key + seq![':', ' '] + v),
{
    let line = key + seq![':', ' '] + v;
    if clean_line(v) {
        if line.contains('\n') {
            let i = choose|i: int| 0 <= i < line.len() && line[i] == '\n';
            if i < key.len() {
                assert(line[i] == key[i]);
                assert(is_ws(key[i]));
            } else if i >= key.len() + 2 {
                assert(line[i] == v[i - key.len() - 2]);
                assert(v.contains('\n'));
            }
        }
        if v.len() > 0 {
            assert(line.last() == v.last());
        } else {
            assert(line.last() == ' ');
        }
    }
    assert forall|j: int| 0 <= j < key.len() implies !(is_char(':'))(#[trigger] line[j]) by {
        assert(line[j] == key[j]);
    }
    assert(line[key.len() as int] == ':');
    lemma_first_index_is(line, is_char(':'), key.len() as int);
    assert(line.take(key.len() as int) =~= key);
    lemma_trim_edge_clean(key);
    assert(line.skip(key.len() + 1int) =~= seq![' '] + v);
    lemma_trim_after_space(v);
}

/// `Key: ` as a key, a colon and a space.
proof fn lemma_prefix(prefix: Seq<char>, key: Seq<char>)
    requires
        prefix == key + seq![':', ' '],
    ensures
        forall|v: Seq<char>| #[trigger] (prefix + v) == key + seq![':', ' '] + v,
{
    assert forall|v: Seq<char>| #[trigger] (prefix + v) == key + seq![':', ' '] + v by {
        assert(prefix + v =~= key + seq![':', ' '] + v);
    }
}

/// A `From:` line sets its field.
pub proof fn lemma_from_line(d: DraftView, v: Seq<char>)
    requires
        edge_clean(v),
    ensures
        apply_line(d, "From: "@ + v) == Ok::<DraftView, Seq<char>>(DraftView { from: bare_address_of(v), from_name: from_name_of(v), ..d }),
        clean_line(v) ==> clean_line("From: "@ + v),
        ("From: "@ + v).len() > 0,
{
    reveal_strlit("From: ");
    reveal_strlit("From");
    reveal_strlit("from");
    reveal_strlit("account");
    reveal_strlit("to");
    reveal_strlit("cc");
    reveal_strlit("bcc");
    reveal_strlit("subject");
    reveal_strlit("in-reply-to");
    reveal_strlit("references");
    reveal_strlit("sign");
    reveal_strlit("encrypt");
    reveal_strlit("attachment");
    reveal_strlit("on");
    reveal_strlit("off");
    assert("From: "@ =~= "From"@ + seq![':', ' ']);
    lemma_prefix("From: "@, "From"@);
    assert forall|i: int| 0 <= i < "From"@.len() implies #[trigger] "From"@[i] != ':' && !is_ws("From"@[i]) by {}
    lemma_key_line(d, "From"@, v);
    assert("From"@ =~= seq!['F', 'r', 'o', 'm']);
    assert("from"@ =~= seq!['f', 'r', 'o', 'm']);
    assert(ascii_lowercase("From"@)[0] == 'f');
    assert(ascii_lowercase("From"@)[1] == 'r');
    assert(ascii_lowercase("From"@)[2] == 'o');
    assert(ascii_lowercase("From"@)[3] == 'm');
    assert(ascii_lowercase("From"@) =~= "from"@);
}

/// A `Account:` line sets its field.
pub proof fn lemma_account_line(d: DraftView, v: Seq<char>)
    requires
        edge_clean(v),
    ensures
        apply_line(d, "Account: "@ + v) == Ok::<DraftView, Seq<char>>(DraftView { account: v, ..d }),
        clean_line(v) ==> clean_line("Account: "@ + v),
        ("Account: "@ + v).len() > 0,
{
    reveal_strlit("Account: ");
    reveal_strlit("Account");
    reveal_strlit("from");
    reveal_strlit("account");
    reveal_strlit("to");
    reveal_strlit("cc");
    reveal_strlit("bcc");
    reveal_strlit("subject");
    reveal_strlit("in-reply-to");
    reveal_strlit("references");
    reveal_strlit("sign");
    reveal_strlit("encrypt");
    reveal_strlit("attachment");
    reveal_strlit("on");
    reveal_strlit("off");
    assert("Account: "@ =~= "Account"@ + seq![':', ' ']);
    lemma_prefix("Account: "@, "Account"@);
    assert forall|i: int| 0 <= i < "Account"@.len() implies #[trigger] "Account"@[i] != ':' && !is_ws("Account"@[i]) by {}
    lemma_key_line(d, "Account"@, v);
    assert("Account"@ =~= seq!['A', 'c', 'c', 'o', 'u', 'n', 't']);
    assert("account"@ =~= seq!['a', 'c', 'c', 'o', 'u', 'n', 't']);
    assert(ascii_lowercase("Account"@)[0] == 'a');
    assert(ascii_lowercase("Account"@)[1] == 'c');
    assert(ascii_lowercase("Account"@)[2] == 'c');
    assert(ascii_lowercase("Account"@)[3] == 'o');
    assert(ascii_lowercase("Account"@)[4] == 'u');
    assert(ascii_lowercase("Account"@)[5] == 'n');
    assert(ascii_lowercase("Account"@)[6] == 't');
    assert(ascii_lowercase("Account"@) =~= "account"@);
}

/// A `To:` line sets its field.
pub proof fn lemma_to_line(d: DraftView, v: Seq<char>)
    requires
        edge_clean(v),
    ensures
        apply_line(d, "To: "@ + v) == Ok::<DraftView, Seq<char>>(DraftView { to: v, ..d }),
        clean_line(v) ==> clean_line("To: "@ + v),
        ("To: "@ + v).len() > 0,
{
    reveal_strlit("To: ");
    reveal_strlit("To");
    reveal_strlit("from");
    reveal_strlit("account");
    reveal_strlit("to");
    reveal_strlit("cc");
    reveal_strlit("bcc");
    reveal_strlit("subject");
    reveal_strlit("in-reply-to");
    reveal_strlit("references");
    reveal_strlit("sign");
    reveal_strlit("encrypt");
    reveal_strlit("attachment");
    reveal_strlit("on");
    reveal_strlit("off");
    assert("To: "@ =~= "To"@ + seq![':', ' ']);
    lemma_prefix("To: "@, "To"@);
    assert forall|i: int| 0 <= i < "To"@.len() implies #[trigger] "To"@[i] != ':' && !is_ws("To"@[i]) by {}
    lemma_key_line(d, "To"@, v);
    assert("To"@ =~= seq!['T', 'o']);
    assert("to"@ =~= seq!['t', 'o']);
    assert(ascii_lowercase("To"@)[0] == 't');
    assert(ascii_lowercase("To"@)[1] == 'o');
    assert(ascii_lowercase("To"@) =~= "to"@);
}

/// A `Cc:` line sets its field.
pub proof fn lemma_cc_line(d: DraftView, v: Seq<char>)
    requires
        edge_clean(v),
    ensures
        apply_line(d, "Cc: "@ + v) == Ok::<DraftView, Seq<char>>(DraftView { cc: v, ..d }),
        clean_line(v) ==> clean_line("Cc: "@ + v),
        ("Cc: "@ + v).len() > 0,
{
    reveal_strlit("Cc: ");
    reveal_strlit("Cc");
    reveal_strlit("from");
    reveal_strlit("account");
    reveal_strlit("to");
    reveal_strlit("cc");
    reveal_strlit("bcc");
    reveal_strlit("subject");
    reveal_strlit("in-reply-to");
    reveal_strlit("references");
    reveal_strlit("sign");
    reveal_strlit("encrypt");
    reveal_strlit("attachment");
    reveal_strlit("on");
    reveal_strlit("off");
    assert("Cc: "@ =~= "Cc"@ + seq![':', ' ']);
    lemma_prefix("Cc: "@, "Cc"@);
    assert forall|i: int| 0 <= i < "Cc"@.len() implies #[trigger] "Cc"@[i] != ':' && !is_ws("Cc"@[i]) by {}
    lemma_key_line(d, "Cc"@, v);
    assert("Cc"@ =~= seq!['C', 'c']);
    assert("cc"@ =~= seq!['c', 'c']);
    assert(ascii_lowercase("Cc"@)[0] == 'c');
    assert(ascii_lowercase("Cc"@)[1] == 'c');
    assert(ascii_lowercase("Cc"@) =~= "cc"@);
}

/// A `Bcc:` line sets its field.
pub proof fn lemma_bcc_line(d: DraftView, v: Seq<char>)
    requires
        edge_clean(v),
    ensures
        apply_line(d, "Bcc: "@ + v) == Ok::<DraftView, Seq<char>>(DraftView { bcc: v, ..d }),
        clean_line(v) ==> clean_line("Bcc: "@ + v),
        ("Bcc: "@ + v).len() > 0,
{
    reveal_strlit("Bcc: ");
    reveal_strlit("Bcc");
    reveal_strlit("from");
    reveal_strlit("account");
    reveal_strlit("to");
    reveal_strlit("cc");
    reveal_strlit("bcc");
    reveal_strlit("subject");
    reveal_strlit("in-reply-to");
    reveal_strlit("references");
    reveal_strlit("sign");
    reveal_strlit("encrypt");
    reveal_strlit("attachment");
    reveal_strlit("on");
    reveal_strlit("off");
    assert("Bcc: "@ =~= "Bcc"@ + seq![':', ' ']);
    lemma_prefix("Bcc: "@, "Bcc"@);
    assert forall|i: int| 0 <= i < "Bcc"@.len() implies #[trigger] "Bcc"@[i] != ':' && !is_ws("Bcc"@[i]) by {}
    lemma_key_line(d, "Bcc"@, v);
    assert("Bcc"@ =~= seq!['B', 'c', 'c']);
    assert("bcc"@ =~= seq!['b', 'c', 'c']);
    assert(ascii_lowercase("Bcc"@)[0] == 'b');
    assert(ascii_lowercase("Bcc"@)[1] == 'c');
    assert(ascii_lowercase("Bcc"@)[2] == 'c');
    assert(ascii_lowercase("Bcc"@) =~= "bcc"@);
}

/// A `Subject:` line sets its field.
pub proof fn lemma_subject_line(d: DraftView, v: Seq<char>)
    requires
        edge_clean(v),
    ensures
        apply_line(d, "Subject: "@ + v) == Ok::<DraftView, Seq<char>>(DraftView { subject: v, ..d }),
        clean_line(v) ==> clean_line("Subject: "@ + v),
        ("Subject: "@ + v).len() > 0,
{
    reveal_strlit("Subject: ");
    reveal_strlit("Subject");
    reveal_strlit("from");
    reveal_strlit("account");
    reveal_strlit("to");
    reveal_strlit("cc");
    reveal_strlit("bcc");
    reveal_strlit("subject");
    reveal_strlit("in-reply-to");
    reveal_strlit("references");
    reveal_strlit("sign");
    reveal_strlit("encrypt");
    reveal_strlit("attachment");
    reveal_strlit("on");
    reveal_strlit("off");
    assert("Subject: "@ =~= "Subject"@ + seq![':', ' ']);
    lemma_prefix("Subject: "@, "Subject"@);
    assert forall|i: int| 0 <= i < "Subject"@.len() implies #[trigger] "Subject"@[i] != ':' && !is_ws("Subject"@[i]) by {}
    lemma_key_line(d, "Subject"@, v);
    assert("Subject"@ =~= seq!['S', 'u', 'b', 'j', 'e', 'c', 't']);
    assert("subject"@ =~= seq!['s', 'u', 'b', 'j', 'e', 'c', 't']);
    assert(ascii_lowercase("Subject"@)[0] == 's');
    assert(ascii_lowercase("Subject"@)[1] == 'u');
    assert(ascii_lowercase("Subject"@)[2] == 'b');
    assert(ascii_lowercase("Subject"@)[3] == 'j');
    assert(ascii_lowercase("Subject"@)[4] == 'e');
    assert(ascii_lowercase("Subject"@)[5] == 'c');
    assert(ascii_lowercase("Subject"@)[6] == 't');
    assert(ascii_lowercase("Subject"@) =~= "subject"@);
}

/// A `In-Reply-To:` line sets its field.
pub proof fn lemma_in_reply_to_line(d: DraftView, v: Seq<char>)
    requires
        edge_clean(v),
    ensures
        apply_line(d, "In-Reply-To: "@ + v) == Ok::<DraftView, Seq<char>>(DraftView { in_reply_to: single_id_of(v), ..d }),
        clean_line(v) ==> clean_line("In-Reply-To: "@ + v),
        ("In-Reply-To: "@ + v).len() > 0,
{
    reveal_strlit("In-Reply-To: ");
    reveal_strlit("In-Reply-To");
    reveal_strlit("from");
    reveal_strlit("account");
    reveal_strlit("to");
    reveal_strlit("cc");
    reveal_strlit("bcc");
    reveal_strlit("subject");
    reveal_strlit("in-reply-to");
    reveal_strlit("references");
    reveal_strlit("sign");
    reveal_strlit("encrypt");
    reveal_strlit("attachment");
    reveal_strlit("on");
    reveal_strlit("off");
    assert("In-Reply-To: "@ =~= "In-Reply-To"@ + seq![':', ' ']);
    lemma_prefix("In-Reply-To: "@, "In-Reply-To"@);
    assert forall|i: int| 0 <= i < "In-Reply-To"@.len() implies #[trigger] "In-Reply-To"@[i] != ':' && !is_ws("In-Reply-To"@[i]) by {}
    lemma_key_line(d, "In-Reply-To"@, v);
    assert("In-Reply-To"@ =~= seq!['I', 'n', '-', 'R', 'e', 'p', 'l', 'y', '-', 'T', 'o']);
    assert("in-reply-to"@ =~= seq!['i', 'n', '-', 'r', 'e', 'p', 'l', 'y', '-', 't', 'o']);
    assert(ascii_lowercase("In-Reply-To"@)[0] == 'i');
    assert(ascii_lowercase("In-Reply-To"@)[1] == 'n');
    assert(ascii_lowercase("In-Reply-To"@)[2] == '-');
    assert(ascii_lowercase("In-Reply-To"@)[3] == 'r');
    assert(ascii_lowercase("In-Reply-To"@)[4] == 'e');
    assert(ascii_lowercase("In-Reply-To"@)[5] == 'p');
    assert(ascii_lowercase("In-Reply-To"@)[6] == 'l');
    assert(ascii_lowercase("In-Reply-To"@)[7] == 'y');
    assert(ascii_lowercase("In-Reply-To"@)[8] == '-');
    assert(ascii_lowercase("In-Reply-To"@)[9] == 't');
    assert(ascii_lowercase("In-Reply-To"@)[10] == 'o');
    assert(ascii_lowercase("In-Reply-To"@) =~= "in-reply-to"@);
}

/// A `References:` line sets its field.
pub proof fn lemma_references_line(d: DraftView, v: Seq<char>)
    requires
        edge_clean(v),
    ensures
        apply_line(d, "References: "@ + v) == Ok::<DraftView, Seq<char>>(DraftView { references: id_list_of(v), ..d }),
        clean_line(v) ==> clean_line("References: "@ + v),
        ("References: "@ + v).len() > 0,
{
    reveal_strlit("References: ");
    reveal_strlit("References");
    reveal_strlit("from");
    reveal_strlit("account");
    reveal_strlit("to");
    reveal_strlit("cc");
    reveal_strlit("bcc");
    reveal_strlit("subject");
    reveal_strlit("in-reply-to");
    reveal_strlit("references");
    reveal_strlit("sign");
    reveal_strlit("encrypt");
    reveal_strlit("attachment");
    reveal_strlit("on");
    reveal_strlit("off");
    assert("References: "@ =~= "References"@ + seq![':', ' ']);
    lemma_prefix("References: "@, "References"@);
    assert forall|i: int| 0 <= i < "References"@.len() implies #[trigger] "References"@[i] != ':' && !is_ws("References"@[i]) by {}
    lemma_key_line(d, "References"@, v);
    assert("References"@ =~= seq!['R', 'e', 'f', 'e', 'r', 'e', 'n', 'c', 'e', 's']);
    assert("references"@ =~= seq!['r', 'e', 'f', 'e', 'r', 'e', 'n', 'c', 'e', 's']);
    assert(ascii_lowercase("References"@)[0] == 'r');
    assert(ascii_lowercase("References"@)[1] == 'e');
    assert(ascii_lowercase("References"@)[2] == 'f');
    assert(ascii_lowercase("References"@)[3] == 'e');
    assert(ascii_lowercase("References"@)[4] == 'r');
    assert(ascii_lowercase("References"@)[5] == 'e');
    assert(ascii_lowercase("References"@)[6] == 'n');
    assert(ascii_lowercase("References"@)[7] == 'c');
    assert(ascii_lowercase("References"@)[8] == 'e');
    assert(ascii_lowercase("References"@)[9] == 's');
    assert(ascii_lowercase("References"@) =~= "references"@);
}

/// A `Sign:` line sets its field.
pub proof fn lemma_sign_line(d: DraftView, v: Seq<char>)
    requires
        edge_clean(v),
    ensures
        apply_line(d, "Sign: "@ + v) == Ok::<DraftView, Seq<char>>(DraftView { sign: Some(v == "on"@), ..d }),
        clean_line(v) ==> clean_line("Sign: "@ + v),
        ("Sign: "@ + v).len() > 0,
{
    reveal_strlit("Sign: ");
    reveal_strlit("Sign");
    reveal_strlit("from");
    reveal_strlit("account");
    reveal_strlit("to");
    reveal_strlit("cc");
    reveal_strlit("bcc");
    reveal_strlit("subject");
    reveal_strlit("in-reply-to");
    reveal_strlit("references");
    reveal_strlit("sign");
    reveal_strlit("encrypt");
    reveal_strlit("attachment");
    reveal_strlit("on");
    reveal_strlit("off");
    assert("Sign: "@ =~= "Sign"@ + seq![':', ' ']);
    lemma_prefix("Sign: "@, "Sign"@);
    assert forall|i: int| 0 <= i < "Sign"@.len() implies #[trigger] "Sign"@[i] != ':' && !is_ws("Sign"@[i]) by {}
    lemma_key_line(d, "Sign"@, v);
    assert("Sign"@ =~= seq!['S', 'i', 'g', 'n']);
    assert("sign"@ =~= seq!['s', 'i', 'g', 'n']);
    assert(ascii_lowercase("Sign"@)[0] == 's');
    assert(ascii_lowercase("Sign"@)[1] == 'i');
    assert(ascii_lowercase("Sign"@)[2] == 'g');
    assert(ascii_lowercase("Sign"@)[3] == 'n');
    assert(ascii_lowercase("Sign"@) =~= "sign"@);
}

/// A `Encrypt:` line sets its field.
pub proof fn lemma_encrypt_line(d: DraftView, v: Seq<char>)
    requires
        edge_clean(v),
    ensures
        apply_line(d, "Encrypt: "@ + v) == Ok::<DraftView, Seq<char>>(DraftView { encrypt: Some(v == "on"@), ..d }),
        clean_line(v) ==> clean_line("Encrypt: "@ + v),
        ("Encrypt: "@ + v).len() > 0,
{
    reveal_strlit("Encrypt: ");
    reveal_strlit("Encrypt");
    reveal_strlit("from");
    reveal_strlit("account");
    reveal_strlit("to");
    reveal_strlit("cc");
    reveal_strlit("bcc");
    reveal_strlit("subject");
    reveal_strlit("in-reply-to");
    reveal_strlit("references");
    reveal_strlit("sign");
    reveal_strlit("encrypt");
    reveal_strlit("attachment");
    reveal_strlit("on");
    reveal_strlit("off");
    assert("Encrypt: "@ =~= "Encrypt"@ + seq![':', ' ']);
    lemma_prefix("Encrypt: "@, "Encrypt"@);
    assert forall|i: int| 0 <= i < "Encrypt"@.len() implies #[trigger] "Encrypt"@[i] != ':' && !is_ws("Encrypt"@[i]) by {}
    lemma_key_line(d, "Encrypt"@, v);
    assert("Encrypt"@ =~= seq!['E', 'n', 'c', 'r', 'y', 'p', 't']);
    assert("encrypt"@ =~= seq!['e', 'n', 'c', 'r', 'y', 'p', 't']);
    assert(ascii_lowercase("Encrypt"@)[0] == 'e');
    assert(ascii_lowercase("Encrypt"@)[1] == 'n');
    assert(ascii_lowercase("Encrypt"@)[2] == 'c');
    assert(ascii_lowercase("Encrypt"@)[3] == 'r');
    assert(ascii_lowercase("Encrypt"@)[4] == 'y');
    assert(ascii_lowercase("Encrypt"@)[5] == 'p');
    assert(ascii_lowercase("Encrypt"@)[6] == 't');
    assert(ascii_lowercase("Encrypt"@) =~= "encrypt"@);
}

/// A `Attachment:` line sets its field.
pub proof fn lemma_attachment_line(d: DraftView, v: Seq<char>)
    requires
        edge_clean(v),
    ensures
        apply_line(d, "Attachment: "@ + v) == Ok::<DraftView, Seq<char>>(DraftView { attachments: d.attachments.push(v), ..d }),
        clean_line(v) ==> clean_line("Attachment: "@ + v),
        ("Attachment: "@ + v).len() > 0,
{
    reveal_strlit("Attachment: ");
    reveal_strlit("Attachment");
    reveal_strlit("from");
    reveal_strlit("account");
    reveal_strlit("to");
    reveal_strlit("cc");
    reveal_strlit("bcc");
    reveal_strlit("subject");
    reveal_strlit("in-reply-to");
    reveal_strlit("references");
    reveal_strlit("sign");
    reveal_strlit("encrypt");
    reveal_strlit("attachment");
    reveal_strlit("on");
    reveal_strlit("off");
    assert("Attachment: "@ =~= "Attachment"@ + seq![':', ' ']);
    lemma_prefix("Attachment: "@, "Attachment"@);
    assert forall|i: int| 0 <= i < "Attachment"@.len() implies #[trigger] "Attachment"@[i] != ':' && !is_ws("Attachment"@[i]) by {}
    lemma_key_line(d, "Attachment"@, v);
    assert("Attachment"@ =~= seq!['A', 't', 't', 'a', 'c', 'h', 'm', 'e', 'n', 't']);
    assert("attachment"@ =~= seq!['a', 't', 't', 'a', 'c', 'h', 'm', 'e', 'n', 't']);
    assert(ascii_lowercase("Attachment"@)[0] == 'a');
    assert(ascii_lowercase("Attachment"@)[1] == 't');
    assert(ascii_lowercase("Attachment"@)[2] == 't');
    assert(ascii_lowercase("Attachment"@)[3] == 'a');
    assert(ascii_lowercase("Attachment"@)[4] == 'c');
    assert(ascii_lowercase("Attachment"@)[5] == 'h');
    assert(ascii_lowercase("Attachment"@)[6] == 'm');
    assert(ascii_lowercase("Attachment"@)[7] == 'e');
    assert(ascii_lowercase("Attachment"@)[8] == 'n');
    assert(ascii_lowercase("Attachment"@)[9] == 't');
    assert(ascii_lowercase("Attachment"@) =~= "attachment"@);
}

// ---------------------------------------------------------------
// The shape of the saved text
// ---------------------------------------------------------------

/// Lines that are clean and not empty.
pub open spec fn solid_lines(lines: Seq<Seq<char>>) -> bool {
    clean_lines(lines) && forall|i: int| 0 <= i < lines.len() ==> #[trigger] lines[i].len() > 0
}

proof fn lemma_solid_drop_last(lines: Seq<Seq<char>>)
    requires
        solid_lines(lines),
        lines.len() > 0,
    ensures
        solid_lines(lines.drop_last()),
{
    let p = lines.drop_last();
    assert forall|i: int| 0 <= i < p.len() implies clean_line(#[trigger] p[i]) && p[i].len() > 0 by {
        assert(p[i] == lines[i]);
        assert(clean_line(lines[i]));
    }
}

proof fn lemma_solid_drop_first(lines: Seq<Seq<char>>)
    requires
        solid_lines(lines),
        lines.len() > 0,
    ensures
        solid_lines(lines.drop_first()),
{
    let p = lines.drop_first();
    assert forall|i: int| 0 <= i < p.len() implies clean_line(#[trigger] p[i]) && p[i].len() > 0 by {
        assert(p[i] == lines[i + 1]);
        assert(clean_line(lines[i + 1]));
    }
}

/// Joined solid lines hold no blank line: no newline is followed by
/// another.
proof fn lemma_join_no_blank(lines: Seq<Seq<char>>)
    requires
        solid_lines(lines),
    ensures
        forall|i: int|
            0 <= i < join_lines(lines).len() - 1 ==> !(#[trigger] join_lines(lines)[i] == '\n' && join_lines(lines)[i + 1]
                == '\n'),
    decreases lines.len(),
{
    if lines.len() > 0 {
        let p = lines.drop_last();
        let last = lines.last();
        lemma_solid_drop_last(lines);
        lemma_join_no_blank(p);
        let h = join_lines(lines);
        let hp = join_lines(p);
        assert(h == hp + last + seq!['\n']);
        assert(clean_line(lines[lines.len() - 1]));
        assert(lines[lines.len() - 1].len() > 0);
        assert forall|i: int| 0 <= i < h.len() - 1 implies !(#[trigger] h[i] == '\n' && h[i + 1] == '\n') by {
            if i + 1 < hp.len() {
                assert(h[i] == hp[i]);
                assert(h[i + 1] == hp[i + 1]);
            } else if i + 1 == hp.len() {
                assert(h[i + 1] == last[0]);
                if last[0] == '\n' {
                    assert(last.contains('\n'));
                }
            } else {
                assert(h[i] == last[i - hp.len()]);
                if last[i - hp.len()] == '\n' {
                    assert(last.contains('\n'));
                }
            }
        }
    }
}

/// The first blank line at or after `k` is at `m` when there is one at
/// `m` and none before it.
proof fn lemma_blank_line_at(t: Seq<char>, k: int, m: int)
    requires
        0 <= k <= m,
        m + 1 < t.len(),
        t[m] == '\n' && t[m + 1] == '\n',
        forall|i: int| k <= i < m ==> !(#[trigger] t[i] == '\n' && t[i + 1] == '\n'),
    ensures
        blank_line_from(t, k) == Some(m),
    decreases m - k,
{
    if k < m {
        lemma_blank_line_at(t, k + 1, m);
    }
}

/// Joined solid lines without their final newline split back into
/// the lines.
proof fn lemma_split_open_join(lines: Seq<Seq<char>>)
    requires
        solid_lines(lines),
        lines.len() > 0,
    ensures
        split_lines(join_lines(lines).drop_last()) == lines,
    decreases lines.len(),
{
    let first = lines[0];
    let rest = lines.drop_first();
    assert(lines =~= seq![first] + rest);
    lemma_join_lines_prepend(first, rest);
    assert(clean_line(lines[0]));
    let text = join_lines(lines).drop_last();
    if rest.len() == 0 {
        assert(join_lines(rest) =~= Seq::<char>::empty());
        assert(text =~= first);
        assert forall|j: int| 0 <= j < first.len() implies !(is_char('\n'))(#[trigger] first[j]) by {
            if first[j] == '\n' {
                assert(first.contains('\n'));
            }
        }
        lemma_first_index_is(first, is_char('\n'), first.len() as int);
        assert(split_lines(text) =~= seq![first]);
    } else {
        lemma_solid_drop_first(lines);
        lemma_split_open_join(rest);
        let jr = join_lines(rest);
        assert(jr == join_lines(rest.drop_last()) + rest.last() + seq!['\n']);
        assert(jr.len() > 0);
        assert(text =~= first + seq!['\n'] + jr.drop_last());
        assert forall|j: int| 0 <= j < first.len() implies !(is_char('\n'))(#[trigger] text[j]) by {
            assert(text[j] == first[j]);
            if first[j] == '\n' {
                assert(first.contains('\n'));
            }
        }
        assert(text[first.len() as int] == '\n');
        lemma_first_index_is(text, is_char('\n'), first.len() as int);
        assert(text.take(first.len() as int) =~= first);
        assert(text.skip(first.len() + 1int) =~= jr.drop_last());
        if first.len() > 0 && first.last() == '\r' {
            assert(first.contains('\r'));
        }
        assert(strip_cr(first) == first);
        assert(split_lines(text) =~= seq![first] + rest);
    }
}

/// Header lines apply one block after another.
proof fn lemma_apply_lines_append(d: DraftView, a: Seq<Seq<char>>, b: Seq<Seq<char>>)
    ensures
        apply_lines(d, a + b) == match apply_lines(d, a) {
            Ok(next) => apply_lines(next, b),
            Err(e) => Err(e),
        },
    decreases a.len(),
{
    if a.len() == 0 {
        assert(a + b =~= b);
    } else {
        assert((a + b)[0] == a[0]);
        assert((a + b).drop_first() =~= a.drop_first() + b);
        match apply_line(d, a[0]) {
            Ok(next) => lemma_apply_lines_append(next, a.drop_first(), b),
            Err(e) => {},
        }
    }
}

// ---------------------------------------------------------------
// Message ids
// ---------------------------------------------------------------

/// A message id that reads back from its brackets: not empty, without
/// whitespace or angle brackets.
pub open spec fn id_safe(id: Seq<char>) -> bool {
    &&& id.len() > 0
    &&& forall|i: int| 0 <= i < id.len() ==> !is_ws(#[trigger] id[i]) && id[i] != '<' && id[i] != '>'
}

pub open spec fn angle_set() -> Seq<char> {
    seq!['<', '>']
}

proof fn lemma_angle_set(c: char)
    ensures
        angle_set().contains(c) <==> (c == '<' || c == '>'),
{
    if c == '<' {
        assert(angle_set()[0] == c);
    }
    if c == '>' {
        assert(angle_set()[1] == c);
    }
}

/// Brackets come off a safe id.
proof fn lemma_unbracket(id: Seq<char>)
    requires
        id_safe(id),
    ensures
        trim_chars(bracketed(id), angle_set()) == id,
{
    let b = bracketed(id);
    reveal_strlit("<");
    reveal_strlit(">");
    assert(b =~= seq!['<'] + id + seq!['>']);
    lemma_angle_set('<');
    lemma_angle_set('>');
    lemma_angle_set(id[0]);
    assert(!(not_in_set_fn(angle_set()))(b[0]));
    assert(b[1] == id[0]);
    lemma_first_index_is(b, not_in_set_fn(angle_set()), 1);
    let rest = b.skip(1);
    assert(rest =~= id + seq!['>']);
    assert(rest[id.len() as int] == '>');
    lemma_angle_set(id.last());
    assert(rest[id.len() - 1] == id.last());
    lemma_set_end_len_is(rest, angle_set(), id.len() as int);
    assert(rest.take(id.len() as int) =~= id);
}

/// A bracketed safe id is a single word without surrounding space.
proof fn lemma_bracketed_word(id: Seq<char>)
    requires
        id_safe(id),
    ensures
        bracketed(id).len() > 0,
        forall|i: int| 0 <= i < bracketed(id).len() ==> !is_ws(#[trigger] bracketed(id)[i]),
        edge_clean(bracketed(id)),
        trim(bracketed(id)) == bracketed(id),
        single_id_of(bracketed(id)) == Some(id),
{
    let b = bracketed(id);
    reveal_strlit("<");
    reveal_strlit(">");
    assert(b =~= seq!['<'] + id + seq!['>']);
    assert forall|i: int| 0 <= i < b.len() implies !is_ws(#[trigger] b[i]) by {
        if 0 < i < b.len() - 1 {
            assert(b[i] == id[i - 1]);
        }
    }
    lemma_trim_edge_clean(b);
    lemma_unbracket(id);
}

/// A word without whitespace is carried whole into the word being read.
proof fn lemma_words_carry(w: Seq<char>, s: Seq<char>, acc: Seq<char>)
    requires
        forall|i: int| 0 <= i < w.len() ==> !is_ws(#[trigger] w[i]),
    ensures
        words_from(w + s, acc) == words_from(s, acc + w),
    decreases w.len(),
{
    if w.len() == 0 {
        assert(w + s =~= s);
        assert(acc + w =~= acc);
    } else {
        assert((w + s)[0] == w[0]);
        assert((w + s).drop_first() =~= w.drop_first() + s);
        lemma_words_carry(w.drop_first(), s, acc.push(w[0]));
        assert(acc.push(w[0]) + w.drop_first() =~= acc + w);
    }
}

/// `items.join(sep)` read from the front.
proof fn lemma_join_with_front(items: Seq<Seq<char>>, sep: Seq<char>)
    requires
        items.len() >= 2,
    ensures
        join_with(items, sep) == items[0] + sep + join_with(items.drop_first(), sep),
    decreases items.len(),
{
    if items.len() == 2 {
        assert(items.drop_last() =~= seq![items[0]]);
        assert(items.drop_first() =~= seq![items[1]]);
        assert(join_with(items.drop_first(), sep) == items[1]);
        assert(join_with(items.drop_last(), sep) == items.drop_last()[0]);
        assert(items.drop_last()[0] == items[0]);
        assert(items.last() == items[1]);
        assert(join_with(items, sep) == join_with(items.drop_last(), sep) + sep + items.last());
        assert(join_with(items, sep) =~= items[0] + sep + items[1]);
    } else {
        lemma_join_with_front(items.drop_last(), sep);
        assert(items.drop_last()[0] == items[0]);
        assert(items.drop_last().drop_first() =~= items.drop_first().drop_last());
        assert(items.drop_first().last() == items.last());
        assert(join_with(items.drop_first(), sep) == join_with(items.drop_first().drop_last(), sep) + sep
            + items.drop_first().last());
        assert(join_with(items, sep) =~= items[0] + sep + join_with(items.drop_first(), sep));
    }
}

/// Words without whitespace joined by single spaces split back into
/// the words.
pub(crate) proof fn lemma_words_of_join(items: Seq<Seq<char>>)
    requires
        items.len() > 0,
        forall|k: int| 0 <= k < items.len() ==> #[trigger] items[k].len() > 0,
        forall|k: int, i: int| 0 <= k < items.len() && 0 <= i < items[k].len() ==> !is_ws(#[trigger] items[k][i]),
    ensures
        words(join_with(items, seq![' '])) == items,
    decreases items.len(),
{
    let x = items[0];
    assert forall|i: int| 0 <= i < x.len() implies !is_ws(#[trigger] x[i]) by {
        assert(!is_ws(items[0][i]));
    }
    if items.len() == 1 {
        assert(join_with(items, seq![' ']) == x);
        lemma_words_carry(x, Seq::empty(), Seq::empty());
        assert(x + Seq::<char>::empty() =~= x);
        assert(Seq::<char>::empty() + x =~= x);
        assert(words(x) =~= items);
    } else {
        let rest = items.drop_first();
        assert forall|k: int| 0 <= k < rest.len() implies #[trigger] rest[k].len() > 0 by {
            assert(rest[k] == items[k + 1]);
        }
        assert forall|k: int, i: int| 0 <= k < rest.len() && 0 <= i < rest[k].len() implies !is_ws(#[trigger] rest[k][i]) by {
            assert(rest[k] == items[k + 1]);
        }
        lemma_words_of_join(rest);
        lemma_join_with_front(items, seq![' ']);
        let tail = join_with(rest, seq![' ']);
        assert(join_with(items, seq![' ']) =~= x + (seq![' '] + tail));
        lemma_words_carry(x, seq![' '] + tail, Seq::empty());
        assert(Seq::<char>::empty() + x =~= x);
        assert((seq![' '] + tail)[0] == ' ');
        assert((seq![' '] + tail).drop_first() =~= tail);
        assert(words_from(seq![' '] + tail, x) == seq![x] + words_from(tail, Seq::empty()));
        assert(words(join_with(items, seq![' '])) =~= seq![x] + rest);
        assert(seq![x] + rest =~= items);
    }
}

proof fn lemma_filter_all(s: Seq<Seq<char>>, pred: spec_fn(Seq<char>) -> bool)
    requires
        forall|i: int| 0 <= i < s.len() ==> pred(#[trigger] s[i]),
    ensures
        s.filter(pred) == s,
    decreases s.len(),
{
    reveal(Seq::filter);
    if s.len() > 0 {
        let p = s.drop_last();
        assert forall|i: int| 0 <= i < p.len() implies pred(#[trigger] p[i]) by {
            assert(p[i] == s[i]);
        }
        lemma_filter_all(p, pred);
        assert(pred(s[s.len() - 1]));
        assert(p.push(s.last()) =~= s);
    }
}

/// Safe ids written as a References value read back as the ids.
proof fn lemma_references_read_back(ids: Seq<Seq<char>>)
    requires
        ids.len() > 0,
        forall|k: int| 0 <= k < ids.len() ==> id_safe(#[trigger] ids[k]),
    ensures
        id_list_of(join_with(ids.map_values(|id: Seq<char>| bracketed(id)), " "@)) == ids,
{
    let items = ids.map_values(|id: Seq<char>| bracketed(id));
    reveal_strlit(" ");
    assert(" "@ =~= seq![' ']);
    assert forall|k: int| 0 <= k < items.len() implies #[trigger] items[k].len() > 0 by {
        lemma_bracketed_word(ids[k]);
    }
    assert forall|k: int, i: int| 0 <= k < items.len() && 0 <= i < items[k].len() implies !is_ws(#[trigger] items[k][i]) by {
        lemma_bracketed_word(ids[k]);
        assert(items[k] == bracketed(ids[k]));
    }
    lemma_words_of_join(items);
    let unwrapped = items.map_values(|w: Seq<char>| trim_chars(w, seq!['<', '>']));
    assert forall|k: int| 0 <= k < unwrapped.len() implies #[trigger] unwrapped[k] == ids[k] by {
        lemma_unbracket(ids[k]);
        assert(angle_set() =~= seq!['<', '>']);
    }
    assert(unwrapped =~= ids);
    lemma_filter_all(ids, |id: Seq<char>| id.len() > 0);
}

/// Every character of words joined by spaces is a space or a word's.
proof fn lemma_join_chars(items: Seq<Seq<char>>)
    requires
        forall|k: int, i: int| 0 <= k < items.len() && 0 <= i < items[k].len() ==> !is_ws(#[trigger] items[k][i]),
    ensures
        forall|i: int| 0 <= i < join_with(items, seq![' ']).len() ==> #[trigger] join_with(items, seq![' '])[i] == ' '
            || !is_ws(join_with(items, seq![' '])[i]),
    decreases items.len(),
{
    let j = join_with(items, seq![' ']);
    if items.len() == 1 {
        assert forall|i: int| 0 <= i < j.len() implies #[trigger] j[i] == ' ' || !is_ws(j[i]) by {
            assert(j[i] == items[0][i]);
        }
    } else if items.len() > 1 {
        let p = items.drop_last();
        assert forall|k: int, i: int| 0 <= k < p.len() && 0 <= i < p[k].len() implies !is_ws(#[trigger] p[k][i]) by {
            assert(p[k] == items[k]);
        }
        lemma_join_chars(p);
        let jp = join_with(p, seq![' ']);
        let last = items.last();
        assert(j == jp + seq![' '] + last);
        assert forall|i: int| 0 <= i < j.len() implies #[trigger] j[i] == ' ' || !is_ws(j[i]) by {
            if i < jp.len() {
                assert(j[i] == jp[i]);
            } else if i > jp.len() {
                assert(j[i] == last[i - jp.len() - 1]);
                assert(!is_ws(items[items.len() - 1][i - jp.len() - 1]));
            }
        }
    }
}

/// Non-empty words joined by spaces start with the first word's first
/// character and end with the last word's last.
proof fn lemma_join_ends(items: Seq<Seq<char>>)
    requires
        items.len() > 0,
        forall|k: int| 0 <= k < items.len() ==> #[trigger] items[k].len() > 0,
    ensures
        join_with(items, seq![' ']).len() > 0,
        join_with(items, seq![' '])[0] == items[0][0],
        join_with(items, seq![' ']).last() == items.last().last(),
    decreases items.len(),
{
    if items.len() > 1 {
        let p = items.drop_last();
        assert forall|k: int| 0 <= k < p.len() implies #[trigger] p[k].len() > 0 by {
            assert(p[k] == items[k]);
        }
        lemma_join_ends(p);
        assert(p[0] == items[0]);
        assert(items[items.len() - 1].len() > 0);
    }
}

/// Attachment lines add their paths, in order.
proof fn lemma_attachment_lines(d: DraftView, paths: Seq<Seq<char>>)
    requires
        forall|k: int| 0 <= k < paths.len() ==> edge_clean(#[trigger] paths[k]),
    ensures
        apply_lines(d, attachment_lines(paths)) == Ok::<DraftView, Seq<char>>(
            DraftView { attachments: d.attachments + paths, ..d },
        ),
    decreases paths.len(),
{
    if paths.len() == 0 {
        assert(attachment_lines(paths) =~= Seq::<Seq<char>>::empty());
        assert(d.attachments + paths =~= d.attachments);
        assert(DraftView { attachments: d.attachments + paths, ..d } =~= d);
    } else {
        let p = paths.drop_last();
        assert forall|k: int| 0 <= k < p.len() implies edge_clean(#[trigger] p[k]) by {
            assert(p[k] == paths[k]);
        }
        lemma_attachment_lines(d, p);
        let last = paths.last();
        assert(edge_clean(paths[paths.len() - 1]));
        assert(attachment_lines(paths) =~= attachment_lines(p) + seq!["Attachment: "@ + last]);
        lemma_apply_lines_append(d, attachment_lines(p), seq!["Attachment: "@ + last]);
        let mid = DraftView { attachments: d.attachments + p, ..d };
        lemma_attachment_line(mid, last);
        lemma_apply_single(mid, "Attachment: "@ + last);
        assert(d.attachments + p + seq![last] =~= d.attachments + paths);
        assert((d.attachments + p).push(last) =~= d.attachments + paths);
    }
}

proof fn lemma_apply_single(d: DraftView, line: Seq<char>)
    ensures
        apply_lines(d, seq![line]) == apply_line(d, line),
{
    assert(seq![line][0] == line);
    assert(seq![line].drop_first() =~= Seq::<Seq<char>>::empty());
    match apply_line(d, line) {
        Ok(next) => {
            assert(apply_lines(next, Seq::<Seq<char>>::empty()) == Ok::<DraftView, Seq<char>>(next));
        },
        Err(_) => {},
    }
}

/// `line` applied, then `rest`.
proof fn lemma_apply_first(d: DraftView, line: Seq<char>, rest: Seq<Seq<char>>, next: DraftView)
    requires
        apply_line(d, line) == Ok::<DraftView, Seq<char>>(next),
    ensures
        apply_lines(d, seq![line] + rest) == apply_lines(next, rest),
{
    assert((seq![line] + rest)[0] == line);
    assert((seq![line] + rest).drop_first() =~= rest);
}

// ---------------------------------------------------------------
// The law
// ---------------------------------------------------------------

/// A header value that survives being written and read back: one
/// line, without whitespace at either end.
pub open spec fn value_safe(v: Seq<char>) -> bool {
    clean_line(v) && edge_clean(v)
}

/// What a saved draft holds can be read back: every header value is
/// safe, every message id and attachment path too, and the From line
/// names an address.
pub open spec fn parts_safe(p: DraftParts) -> bool {
    &&& value_safe(p.sender)
    &&& value_safe(p.account)
    &&& value_safe(p.to)
    &&& value_safe(p.cc)
    &&& value_safe(p.bcc)
    &&& value_safe(p.subject)
    &&& (p.in_reply_to matches Some(id) ==> id_safe(id))
    &&& forall|k: int| 0 <= k < p.references.len() ==> id_safe(#[trigger] p.references[k])
    &&& forall|k: int| 0 <= k < p.attachments.len() ==> value_safe(#[trigger] p.attachments[k])
    &&& bare_address_of(p.sender).contains('@')
}

/// The draft `:resume` reads back from what was saved.
pub open spec fn read_back(p: DraftParts) -> DraftView {
    DraftView {
        from_name: from_name_of(p.sender),
        from: bare_address_of(p.sender),
        account: p.account,
        to: p.to,
        cc: p.cc,
        bcc: p.bcc,
        subject: p.subject,
        body: p.body,
        in_reply_to: p.in_reply_to,
        references: p.references,
        sign: Some(p.sign),
        encrypt: Some(p.encrypt),
        attachments: p.attachments,
    }
}

proof fn lemma_solid_push(a: Seq<Seq<char>>, x: Seq<char>)
    requires
        solid_lines(a),
        clean_line(x),
        x.len() > 0,
    ensures
        solid_lines(a.push(x)),
{
    assert forall|i: int| 0 <= i < a.push(x).len() implies clean_line(#[trigger] a.push(x)[i]) && a.push(x)[i].len() > 0 by {
        if i < a.len() {
            assert(a.push(x)[i] == a[i]);
            assert(clean_line(a[i]));
        }
    }
}

proof fn lemma_solid_concat(a: Seq<Seq<char>>, b: Seq<Seq<char>>)
    requires
        solid_lines(a),
        solid_lines(b),
    ensures
        solid_lines(a + b),
{
    assert forall|i: int| 0 <= i < (a + b).len() implies clean_line(#[trigger] (a + b)[i]) && (a + b)[i].len() > 0 by {
        if i < a.len() {
            assert((a + b)[i] == a[i]);
            assert(clean_line(a[i]));
        } else {
            assert((a + b)[i] == b[i - a.len()]);
            assert(clean_line(b[i - a.len()]));
        }
    }
}

/// A value without any whitespace is safe.
proof fn lemma_no_ws_safe(v: Seq<char>)
    requires
        forall|i: int| 0 <= i < v.len() ==> !is_ws(#[trigger] v[i]),
    ensures
        value_safe(v),
{
    assert forall|c: char| (c == '\n' || c == '\r') implies !v.contains(c) by {
        if v.contains(c) {
            let i = choose|i: int| 0 <= i < v.len() && v[i] == c;
            assert(!is_ws(v[i]));
        }
    }
    if v.len() > 0 {
        assert(!is_ws(v[v.len() - 1]));
    }
}

proof fn lemma_on_off(b: bool)
    ensures
        value_safe(on_off(b)),
        (on_off(b) == "on"@) == b,
{
    reveal_strlit("on");
    reveal_strlit("off");
    assert forall|i: int| 0 <= i < on_off(b).len() implies !is_ws(#[trigger] on_off(b)[i]) by {}
    lemma_no_ws_safe(on_off(b));
}

/// The references value: bracketed safe ids joined by spaces.
proof fn lemma_references_value(ids: Seq<Seq<char>>)
    requires
        ids.len() > 0,
        forall|k: int| 0 <= k < ids.len() ==> id_safe(#[trigger] ids[k]),
    ensures
        value_safe(join_with(ids.map_values(|id: Seq<char>| bracketed(id)), " "@)),
        id_list_of(join_with(ids.map_values(|id: Seq<char>| bracketed(id)), " "@)) == ids,
{
    let items = ids.map_values(|id: Seq<char>| bracketed(id));
    reveal_strlit(" ");
    assert(" "@ =~= seq![' ']);
    assert forall|k: int| 0 <= k < items.len() implies #[trigger] items[k].len() > 0 by {
        lemma_bracketed_word(ids[k]);
    }
    assert forall|k: int, i: int| 0 <= k < items.len() && 0 <= i < items[k].len() implies !is_ws(#[trigger] items[k][i]) by {
        lemma_bracketed_word(ids[k]);
        assert(items[k] == bracketed(ids[k]));
    }
    lemma_join_chars(items);
    lemma_join_ends(items);
    let j = join_with(items, seq![' ']);
    assert forall|c: char| (c == '\n' || c == '\r') implies !j.contains(c) by {
        if j.contains(c) {
            let i = choose|i: int| 0 <= i < j.len() && j[i] == c;
            assert(j[i] == ' ' || !is_ws(j[i]));
        }
    }
    assert(!is_ws(items[0][0]));
    assert(items.last() == items[items.len() - 1]);
    assert(!is_ws(items[items.len() - 1][items[items.len() - 1].len() - 1]));
    lemma_references_read_back(ids);
}

/// Every header line of a safe draft is one non-empty line.
proof fn lemma_draft_lines_solid(p: DraftParts)
    requires
        parts_safe(p),
    ensures
        solid_lines(draft_lines(p)),
{
    let d = body_only(p.body);
    lemma_from_line(d, p.sender);
    lemma_account_line(d, p.account);
    lemma_to_line(d, p.to);
    lemma_cc_line(d, p.cc);
    lemma_bcc_line(d, p.bcc);
    lemma_subject_line(d, p.subject);
    let fixed = seq![
        "From: "@ + p.sender,
        "Account: "@ + p.account,
        "To: "@ + p.to,
        "Cc: "@ + p.cc,
        "Bcc: "@ + p.bcc,
        "Subject: "@ + p.subject,
    ];
    let e = Seq::<Seq<char>>::empty();
    assert(solid_lines(e));
    lemma_solid_push(e, "From: "@ + p.sender);
    lemma_solid_push(e.push("From: "@ + p.sender), "Account: "@ + p.account);
    lemma_solid_push(e.push("From: "@ + p.sender).push("Account: "@ + p.account), "To: "@ + p.to);
    lemma_solid_push(e.push("From: "@ + p.sender).push("Account: "@ + p.account).push("To: "@ + p.to), "Cc: "@ + p.cc);
    lemma_solid_push(
        e.push("From: "@ + p.sender).push("Account: "@ + p.account).push("To: "@ + p.to).push("Cc: "@ + p.cc),
        "Bcc: "@ + p.bcc,
    );
    lemma_solid_push(
        e.push("From: "@ + p.sender).push("Account: "@ + p.account).push("To: "@ + p.to).push("Cc: "@ + p.cc).push(
            "Bcc: "@ + p.bcc,
        ),
        "Subject: "@ + p.subject,
    );
    assert(fixed =~= e.push("From: "@ + p.sender).push("Account: "@ + p.account).push("To: "@ + p.to).push(
        "Cc: "@ + p.cc,
    ).push("Bcc: "@ + p.bcc).push("Subject: "@ + p.subject));
    let r1 = reply_lines(p.in_reply_to);
    match p.in_reply_to {
        Some(id) => {
            lemma_bracketed_word(id);
            lemma_no_ws_safe(bracketed(id));
            lemma_in_reply_to_line(d, bracketed(id));
            lemma_solid_push(e, "In-Reply-To: "@ + bracketed(id));
            assert(r1 =~= e.push("In-Reply-To: "@ + bracketed(id)));
        },
        None => {
            assert(r1 =~= e);
        },
    }
    let r2 = reference_lines(p.references);
    if p.references.len() > 0 {
        let v = join_with(p.references.map_values(|id: Seq<char>| bracketed(id)), " "@);
        lemma_references_value(p.references);
        lemma_references_line(d, v);
        lemma_solid_push(e, "References: "@ + v);
        assert(r2 =~= e.push("References: "@ + v));
    } else {
        assert(r2 =~= e);
    }
    lemma_on_off(p.sign);
    lemma_on_off(p.encrypt);
    lemma_sign_line(d, on_off(p.sign));
    lemma_encrypt_line(d, on_off(p.encrypt));
    let plan = seq!["Sign: "@ + on_off(p.sign), "Encrypt: "@ + on_off(p.encrypt)];
    lemma_solid_push(e, "Sign: "@ + on_off(p.sign));
    lemma_solid_push(e.push("Sign: "@ + on_off(p.sign)), "Encrypt: "@ + on_off(p.encrypt));
    assert(plan =~= e.push("Sign: "@ + on_off(p.sign)).push("Encrypt: "@ + on_off(p.encrypt)));
    let files = attachment_lines(p.attachments);
    assert forall|k: int| 0 <= k < files.len() implies clean_line(#[trigger] files[k]) && files[k].len() > 0 by {
        assert(value_safe(p.attachments[k]));
        lemma_attachment_line(d, p.attachments[k]);
        assert(files[k] == "Attachment: "@ + p.attachments[k]);
    }
    lemma_solid_concat(fixed, r1);
    lemma_solid_concat(fixed + r1, r2);
    lemma_solid_concat(fixed + r1 + r2, plan);
    lemma_solid_concat(fixed + r1 + r2 + plan, files);
}

/// Applying the header lines of a safe draft gives what was saved.
#[verifier::rlimit(60)]
proof fn lemma_draft_lines_apply(p: DraftParts)
    requires
        parts_safe(p),
    ensures
        apply_lines(body_only(p.body), draft_lines(p)) == Ok::<DraftView, Seq<char>>(read_back(p)),
{
    let d0 = body_only(p.body);
    let l0 = "From: "@ + p.sender;
    let l1 = "Account: "@ + p.account;
    let l2 = "To: "@ + p.to;
    let l3 = "Cc: "@ + p.cc;
    let l4 = "Bcc: "@ + p.bcc;
    let l5 = "Subject: "@ + p.subject;
    let d1 = DraftView { from: bare_address_of(p.sender), from_name: from_name_of(p.sender), ..d0 };
    let d2 = DraftView { account: p.account, ..d1 };
    let d3 = DraftView { to: p.to, ..d2 };
    let d4 = DraftView { cc: p.cc, ..d3 };
    let d5 = DraftView { bcc: p.bcc, ..d4 };
    let d6 = DraftView { subject: p.subject, ..d5 };
    lemma_from_line(d0, p.sender);
    lemma_account_line(d1, p.account);
    lemma_to_line(d2, p.to);
    lemma_cc_line(d3, p.cc);
    lemma_bcc_line(d4, p.bcc);
    lemma_subject_line(d5, p.subject);
    let e = Seq::<Seq<char>>::empty();
    let fixed = seq![l0, l1, l2, l3, l4, l5];
    assert(fixed =~= seq![l0] + seq![l1, l2, l3, l4, l5]);
    assert(seq![l1, l2, l3, l4, l5] =~= seq![l1] + seq![l2, l3, l4, l5]);
    assert(seq![l2, l3, l4, l5] =~= seq![l2] + seq![l3, l4, l5]);
    assert(seq![l3, l4, l5] =~= seq![l3] + seq![l4, l5]);
    assert(seq![l4, l5] =~= seq![l4] + seq![l5]);
    assert(seq![l5] =~= seq![l5] + e);
    lemma_apply_first(d5, l5, e, d6);
    lemma_apply_first(d4, l4, seq![l5], d5);
    lemma_apply_first(d3, l3, seq![l4, l5], d4);
    lemma_apply_first(d2, l2, seq![l3, l4, l5], d3);
    lemma_apply_first(d1, l1, seq![l2, l3, l4, l5], d2);
    lemma_apply_first(d0, l0, seq![l1, l2, l3, l4, l5], d1);
    assert(apply_lines(d0, fixed) == Ok::<DraftView, Seq<char>>(d6));

    let r1 = reply_lines(p.in_reply_to);
    let d7 = DraftView { in_reply_to: p.in_reply_to, ..d6 };
    match p.in_reply_to {
        Some(id) => {
            lemma_bracketed_word(id);
            lemma_in_reply_to_line(d6, bracketed(id));
            lemma_apply_single(d6, "In-Reply-To: "@ + bracketed(id));
        },
        None => {
            assert(r1 =~= e);
            assert(d7 =~= d6);
        },
    }
    assert(apply_lines(d6, r1) == Ok::<DraftView, Seq<char>>(d7));

    let r2 = reference_lines(p.references);
    let d8 = DraftView { references: p.references, ..d7 };
    if p.references.len() > 0 {
        let v = join_with(p.references.map_values(|id: Seq<char>| bracketed(id)), " "@);
        lemma_references_value(p.references);
        lemma_references_line(d7, v);
        lemma_apply_single(d7, "References: "@ + v);
    } else {
        assert(r2 =~= e);
        assert(p.references =~= Seq::<Seq<char>>::empty());
        assert(d8 =~= d7);
    }
    assert(apply_lines(d7, r2) == Ok::<DraftView, Seq<char>>(d8));

    let ls = "Sign: "@ + on_off(p.sign);
    let le = "Encrypt: "@ + on_off(p.encrypt);
    let plan = seq![ls, le];
    let d9 = DraftView { sign: Some(p.sign), ..d8 };
    let d10 = DraftView { encrypt: Some(p.encrypt), ..d9 };
    lemma_on_off(p.sign);
    lemma_on_off(p.encrypt);
    lemma_sign_line(d8, on_off(p.sign));
    lemma_encrypt_line(d9, on_off(p.encrypt));
    assert(plan =~= seq![ls] + seq![le]);
    assert(seq![le] =~= seq![le] + e);
    lemma_apply_first(d9, le, e, d10);
    lemma_apply_first(d8, ls, seq![le], d9);
    assert(apply_lines(d8, plan) == Ok::<DraftView, Seq<char>>(d10));

    let files = attachment_lines(p.attachments);
    assert forall|k: int| 0 <= k < p.attachments.len() implies edge_clean(#[trigger] p.attachments[k]) by {
        assert(value_safe(p.attachments[k]));
    }
    lemma_attachment_lines(d10, p.attachments);
    let d11 = DraftView { attachments: d10.attachments + p.attachments, ..d10 };

    lemma_apply_lines_append(d0, fixed, r1);
    lemma_apply_lines_append(d0, fixed + r1, r2);
    lemma_apply_lines_append(d0, fixed + r1 + r2, plan);
    lemma_apply_lines_append(d0, fixed + r1 + r2 + plan, files);
    assert(draft_lines(p) == fixed + r1 + r2 + plan + files);
    assert(d10.attachments + p.attachments =~= p.attachments);
    assert(d11 =~= read_back(p));
}

/// A draft saved from the review screen is what `:resume` reads back:
/// the From line's address and display name, the account, To, Cc, Bcc
/// and Subject, the threading ids, the seal plan, the attachment paths
/// and the body, whenever every value fits on its header line (one
/// line, no whitespace at either end, ids without spaces or angle
/// brackets) and the From line names an address.
pub proof fn law_saved_draft_reads_back(p: DraftParts)
    requires
        parts_safe(p),
    ensures
        parsed_draft(draft_text(p)) == Ok::<DraftView, Seq<char>>(read_back(p)),
{
    let lines = draft_lines(p);
    lemma_draft_lines_solid(p);
    let h = join_lines(lines);
    let text = draft_text(p);
    lemma_join_no_blank(lines);
    assert(lines.len() > 0);
    assert(h == join_lines(lines.drop_last()) + lines.last() + seq!['\n']);
    let m = h.len() - 1;
    assert(text =~= h + seq!['\n'] + p.body);
    assert forall|i: int| 0 <= i < m implies !(#[trigger] text[i] == '\n' && text[i + 1] == '\n') by {
        assert(text[i] == h[i]);
        assert(text[i + 1] == h[i + 1]);
    }
    assert(text[m] == '\n');
    assert(text[m + 1] == '\n');
    lemma_blank_line_at(text, 0, m);
    assert(text.take(m) =~= h.drop_last());
    lemma_split_open_join(lines);
    assert(text.skip(m + 2) =~= p.body);
    lemma_draft_lines_apply(p);
}

/// `:resume` after saving a compose reads back what the compose held:
/// `parse` of the text `render` writes gives the chosen identity's name
/// and address, the account, the header fields, the threading ids, the
/// seal plan, the attachment paths and the body, on the composes whose
/// parts are safe to write (see `parts_safe`).
pub proof fn law_saved_compose_reads_back(state: ComposeState)
    requires
        state.chosen < state.choices@.len(),
        parts_safe(draft_parts_of(state)),
    ensures
        parsed_draft(draft_text(draft_parts_of(state))) == Ok::<DraftView, Seq<char>>(read_back(draft_parts_of(state))),
{
    law_saved_draft_reads_back(draft_parts_of(state));
}

} // verus!
