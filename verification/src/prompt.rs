//! What a submitted prompt asks for.

use crate::single::Single;
use crate::text::lemma_lowered_twice;
use crate::text::lowered;
use vstd::prelude::*;

verus! {

/// Prompts longer than this many characters are reported as not trivial
/// without scoring. The embedding model reads the first 512 tokens only
/// (roughly 2000 characters), so a longer prompt would be judged on its
/// beginning alone, and a long request is not a two-minute task anyway.
pub const LONG_PROMPT: usize = 300;

/// The words that label the pending prompt as trivial.
pub open spec fn says_trivial(s: Seq<char>) -> bool {
    lowered(s) == "t"@ || lowered(s) == "trivial"@
}

/// The words that label the pending prompt as not trivial.
pub open spec fn says_not(s: Seq<char>) -> bool {
    lowered(s) == "n"@ || lowered(s) == "not"@
}

/// The words that drop the pending prompt.
pub open spec fn says_cancel(s: Seq<char>) -> bool {
    lowered(s) == "c"@ || lowered(s) == "cancel"@
}

/// The label that a reply gives, if it gives one.
pub open spec fn label_in(s: Seq<char>) -> Option<bool> {
    if says_trivial(s) {
        Some(true)
    } else if says_not(s) {
        Some(false)
    } else {
        None
    }
}

/// The printed name of a label.
pub open spec fn name_of(trivial: bool) -> Seq<char> {
    if trivial {
        "TRIVIAL"@
    } else {
        "NOT"@
    }
}

/// Recognises a label reply: `t` or `trivial` gives `Some(true)`, `n` or `not`
/// gives `Some(false)`, anything else `None`. Case does not matter.
pub fn parse_label(prompt: &str) -> (r: Option<bool>)
    ensures
        r == label_in(prompt@),
{
    let word: String = prompt.to_ascii_lowercase();
    if word == "t".to_owned() || word == "trivial".to_owned() {
        Some(true)
    } else if word == "n".to_owned() || word == "not".to_owned() {
        Some(false)
    } else {
        None
    }
}

/// Recognises a cancel reply: `c` or `cancel`; case does not matter.
pub fn is_cancel(prompt: &str) -> (r: bool)
    ensures
        r == says_cancel(prompt@),
{
    let word: String = prompt.to_ascii_lowercase();
    word == "c".to_owned() || word == "cancel".to_owned()
}

/// The label as it is printed.
pub fn label_name(trivial: bool) -> (r: &'static str)
    ensures
        r@ == name_of(trivial),
{
    if trivial {
        "TRIVIAL"
    } else {
        "NOT"
    }
}

/// The decision at the threshold of one half.
pub fn verdict(p: Single) -> (r: &'static str)
    ensures
        r@ == name_of(p.reaches_half()),
{
    label_name(p.at_least_half())
}

/// What a trimmed prompt asks for.
#[derive(Clone, Copy, Debug, PartialEq, Eq, Structural)]
pub enum Request {
    /// Nothing: the prompt passes through untouched.
    Pass,
    /// Drop the pending prompt.
    Cancel,
    /// Label the pending prompt.
    Label { trivial: bool },
    /// Report the prompt, of this many characters, as too long to score.
    Long { chars: usize },
    /// Score the prompt, of this many characters.
    Score { chars: usize },
}

/// An empty prompt or a slash command.
pub open spec fn passes(s: Seq<char>) -> bool {
    s.len() == 0 || s[0] == '/'
}

/// What the trimmed prompt `s` asks for.
pub open spec fn request_in(s: Seq<char>) -> Request {
    if passes(s) {
        Request::Pass
    } else if says_cancel(s) {
        Request::Cancel
    } else if label_in(s) is Some {
        Request::Label { trivial: label_in(s)->0 }
    } else if s.len() > LONG_PROMPT {
        Request::Long { chars: s.len() as usize }
    } else {
        Request::Score { chars: s.len() as usize }
    }
}

/// Sorts a trimmed prompt by what it asks for.
pub fn request(prompt: &str) -> (r: Request)
    ensures
        r == request_in(prompt@),
        r matches Request::Long { chars } ==> chars == prompt@.len(),
        r matches Request::Score { chars } ==> chars == prompt@.len(),
{
    if prompt.is_empty() || prompt.get_char(0) == '/' {
        return Request::Pass;
    }
    if is_cancel(prompt) {
        return Request::Cancel;
    }
    if let Some(trivial) = parse_label(prompt) {
        return Request::Label { trivial };
    }
    let chars: usize = prompt.unicode_len();
    if chars > LONG_PROMPT {
        Request::Long { chars }
    } else {
        Request::Score { chars }
    }
}

/// Case does not matter to a reply: a prompt and its lower-case form give the
/// same label, and are both or neither a cancel reply.
pub proof fn law_replies_ignore_case(s: Seq<char>, t: Seq<char>)
    requires
        lowered(s) == lowered(t),
    ensures
        label_in(s) == label_in(t),
        says_cancel(s) == says_cancel(t),
        label_in(lowered(s)) == label_in(s),
        says_cancel(lowered(s)) == says_cancel(s),
{
    lemma_lowered_twice(s);
}

/// No reply means two things: the words for the two labels and for cancelling
/// are different, and none of them passes through.
pub proof fn law_replies_are_distinct(s: Seq<char>)
    ensures
        !(says_trivial(s) && says_not(s)),
        says_cancel(s) ==> label_in(s) is None,
        says_cancel(s) || label_in(s) is Some ==> !passes(s) && s.len() <= LONG_PROMPT,
{
    reveal_strlit("t");
    reveal_strlit("trivial");
    reveal_strlit("n");
    reveal_strlit("not");
    reveal_strlit("c");
    reveal_strlit("cancel");
    assert(lowered(s).len() == s.len());
    if s.len() > 0 {
        assert(lowered(s)[0] == crate::text::ascii_lower(s[0]));
    }
}

} // verus!
