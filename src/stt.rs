//! What the inference worker does with an engine's answers.

use vstd::prelude::*;
use crate::text::{chars_of, trim, trimmed};

verus! {

/// Whether an engine's answer is a fragment to pass on: some text that is
/// not only whitespace.
pub open spec fn worth_forwarding(answer: Option<Seq<char>>) -> bool {
    match answer {
        Some(t) => trim(t).len() > 0,
        None => false,
    }
}

/// The view of an answer.
pub open spec fn answer_view(answer: Option<String>) -> Option<Seq<char>> {
    match answer {
        Some(t) => Some(t@),
        None => None,
    }
}

/// The fragment the worker forwards for one engine answer: the text itself
/// when it has anything but whitespace, otherwise nothing.
pub fn text_to_forward(answer: Option<String>) -> (r: Option<String>)
    ensures
        worth_forwarding(answer_view(answer)) ==> r == answer,
        !worth_forwarding(answer_view(answer)) ==> r is None,
{
    match answer {
        Some(t) => {
            let body = trimmed(&chars_of(t.as_str()));
            if body.len() > 0 {
                Some(t)
            } else {
                None
            }
        },
        None => None,
    }
}

/// An engine's decoded text as an answer: empty text means no fragment.
pub fn answer_of(text: String) -> (r: Option<String>)
    ensures
        text@.len() == 0 ==> r is None,
        text@.len() > 0 ==> r == Some(text),
{
    if text.unicode_len() == 0 {
        None
    } else {
        Some(text)
    }
}

} // verus!
