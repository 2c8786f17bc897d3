//! Files attached to a compose.
use vstd::prelude::*;

use crate::text::{append_str, decimal, push_decimal, string_of};

verus! {

broadcast use vstd::string::group_string_axioms;

/// One file attached to the compose, read fully when added so the
/// review screen never promises bytes it cannot deliver.
#[derive(Clone, Debug, PartialEq, Eq)]
pub struct Attachment {
    pub path: String,
    pub filename: String,
    pub content_type: String,
    pub bytes: Vec<u8>,
}

/// `name (type, N bytes)`
pub open spec fn attachment_label(filename: Seq<char>, content_type: Seq<char>, size: nat) -> Seq<
    char,
> {
    filename + seq![' ', '('] + content_type + seq![',', ' '] + decimal(size) + seq![
        ' ',
        'b',
        'y',
        't',
        'e',
        's',
        ')',
    ]
}

impl Attachment {
    /// The review screen's line for this file.
    pub fn label(&self) -> (r: String)
        ensures
            r@ == attachment_label(self.filename@, self.content_type@, self.bytes@.len()),
    {
        let mut out: Vec<char> = Vec::new();
        append_str(&mut out, self.filename.as_str());
        append_str(&mut out, " (");
        append_str(&mut out, self.content_type.as_str());
        append_str(&mut out, ", ");
        push_decimal(&mut out, self.bytes.len() as u128);
        append_str(&mut out, " bytes)");
        proof {
            reveal_strlit(" (");
            reveal_strlit(", ");
            reveal_strlit(" bytes)");
        }
        assert(out@ =~= attachment_label(self.filename@, self.content_type@, self.bytes@.len()));
        string_of(&out)
    }
}

} // verus!
