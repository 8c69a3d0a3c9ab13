//! The system clipboard as the launcher reads it.
use vstd::prelude::*;
use crate::text::{lemma_trim_end_char, trim_end_char, trim_end_char_spec};

verus! {

/// The text of the clipboard as the clipboard tool prints it, without the
/// line feeds and then the carriage returns at its end.
pub open spec fn pasted_spec(raw: Seq<char>) -> Seq<char> {
    trim_end_char_spec(trim_end_char_spec(raw, '\n'), '\r')
}

/// The text to paste begins the clipboard text and does not end with a
/// carriage return.
pub proof fn lemma_pasted(raw: Seq<char>)
    ensures
        pasted_spec(raw).len() <= raw.len(),
        raw.take(pasted_spec(raw).len() as int) == pasted_spec(raw),
        pasted_spec(raw).len() > 0 ==> pasted_spec(raw).last() != '\r',
{
    let a = trim_end_char_spec(raw, '\n');
    lemma_trim_end_char(raw, '\n');
    lemma_trim_end_char(a, '\r');
    assert(raw.take(pasted_spec(raw).len() as int) =~= a.take(pasted_spec(raw).len() as int));
}

/// The text to paste from what the clipboard tool printed.
pub fn pasted_text(raw: &str) -> (res: String)
    ensures
        res@ == pasted_spec(raw@),
{
    let a = trim_end_char(raw, '\n');
    trim_end_char(a.as_str(), '\r')
}

} // verus!
