//! What the user typed, once it has been read.

use crate::text::{chars_of, skip_end, string_of, strip_end, trim, trimmed, CharClass};
use vstd::prelude::*;

verus! {

/// `line` without the line feeds at its end, and without the carriage
/// returns that then stand at its end.
pub open spec fn answer(line: Seq<char>) -> Seq<char> {
    strip_end(strip_end(line, CharClass::Just('\n')), CharClass::Just('\r'))
}

/// Whether `response` says yes: apart from whitespace around it, it is the
/// letter `y`, in either case.
pub open spec fn affirms(response: Seq<char>) -> bool {
    trimmed(response) == seq!['y'] || trimmed(response) == seq!['Y']
}

/// The user's answer in a line as it was read: the line without its ending.
pub fn input(line: &str) -> (s: String)
    ensures
        s@ == answer(line@),
{
    let chars = chars_of(line);
    string_of(skip_end(skip_end(chars.as_slice(), CharClass::Just('\n')), CharClass::Just('\r')))
}

/// Tests whether the user's `response` to a yes-or-no question says yes.
pub fn yes_or_no(response: &str) -> (yes: bool)
    ensures
        yes == affirms(response@),
{
    let chars = chars_of(response);
    let t = trim(chars.as_slice());
    let yes = t.len() == 1 && (t[0] == 'y' || t[0] == 'Y');
    assert(yes ==> (t@ =~= seq!['y'] || t@ =~= seq!['Y']));
    yes
}

} // verus!
