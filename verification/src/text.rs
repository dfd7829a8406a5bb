//! Texts: the views of lists of strings, joining texts, and trimming them.

use vstd::prelude::*;
use vstd::string::StringExecFns;

verus! {

/// The texts of a list of strings.
pub open spec fn texts(list: Seq<String>) -> Seq<Seq<char>> {
    Seq::new(list.len(), |i: int| list[i]@)
}

/// What `str::trim` leaves of `text`: the text without the white space at
/// its two ends.
pub uninterp spec fn trimmed(text: Seq<char>) -> Seq<char>;

/// `text` without the white space at its two ends, as `str::trim` gives it.
/// The result is a function of the text alone and goes by the name
/// `trimmed`; nothing else is claimed of it.
#[verifier::external_body]
pub(crate) fn trim(text: &str) -> (stripped: String)
    ensures
        stripped@ == trimmed(text@),
{
    text.trim().to_string()
}

/// The three texts one after the other.
pub fn concat3(first: &str, second: &str, third: &str) -> (joined: String)
    ensures
        joined@ == first@ + second@ + third@,
{
    let mut joined = first.to_owned();
    joined.append(second);
    joined.append(third);
    joined
}

} // verus!
