//! Shell words: splitting a command line into words and quoting a word so that
//! it can stand in one. Both are the work of the `shlex` crate; this module
//! gives its results names that contracts can speak of.

use vstd::prelude::*;
use crate::text::strs;

verus! {

/// The words that `shlex::split` reads from a line, or `None` where it reports
/// the line as erroneous (an open quotation, a backslash at the end).
pub uninterp spec fn shell_words(line: Seq<char>) -> Option<Seq<Seq<char>>>;

/// The text that `shlex::quote` writes for one word.
pub uninterp spec fn shell_quoted(word: Seq<char>) -> Seq<char>;

/// Calls `shlex::split`. Nothing is claimed of the words but that they are the
/// ones the crate reads from `line`, the same on every call.
#[verifier::external_body]
pub(crate) fn split(line: &str) -> (words: Option<Vec<String>>)
    ensures
        match shell_words(line@) {
            Some(w) => words is Some && strs(words->Some_0@) == w,
            None => words is None,
        },
{
    shlex::split(line)
}

/// Calls `shlex::quote`, which lets every input through (a NUL character too)
/// and so never fails. Nothing is claimed of the text but that it is the one
/// the crate writes for `word`, the same on every call.
#[verifier::external_body]
#[allow(deprecated)]
pub(crate) fn quote(word: &str) -> (text: String)
    ensures
        text@ == shell_quoted(word@),
{
    shlex::quote(word).into_owned()
}

/// Quotes each word and joins the results with single spaces: a command line
/// as it is shown to a user.
pub open spec fn shell_line(words: Seq<Seq<char>>) -> Seq<char> {
    crate::text::joined(Seq::new(words.len(), |i: int| shell_quoted(words[i])), seq![' '])
}

/// The command line that shows `words`: each one quoted, single spaces between.
pub fn command_line(words: &Vec<String>) -> (line: String)
    ensures
        line@ == shell_line(strs(words@)),
{
    let mut quoted: Vec<String> = Vec::new();
    let mut i: usize = 0;
    while i < words.len()
        invariant
            i <= words@.len(),
            quoted@.len() == i,
            forall|j: int| 0 <= j < i ==> (#[trigger] quoted@[j])@ == shell_quoted(words@[j]@),
        decreases words@.len() - i,
    {
        quoted.push(quote(words[i].as_str()));
        i += 1;
    }
    proof {
        reveal_strlit(" ");
        assert(" "@ =~= seq![' ']);
        assert(strs(quoted@) =~= Seq::new(
            strs(words@).len(),
            |i: int| shell_quoted(strs(words@)[i]),
        ));
    }
    crate::text::join(&quoted, " ")
}

} // verus!
