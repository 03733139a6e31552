//! The text by which the library reports a refused piece of SQL.

use vstd::prelude::*;

verus! {

/// The text `<reason> (Got: '<what>')` by which the library reports a
/// refused piece of SQL.
pub open spec fn refusal_text(reason: Seq<char>, what: Seq<char>) -> Seq<char> {
    reason + " (Got: '"@ + what + "')"@
}

/// Builds [`refusal_text`] of `reason` and `what`.
pub fn refusal_message(reason: &str, what: &str) -> (text: String)
    ensures
        text@ == refusal_text(reason@, what@),
{
    let mut text = String::from_str(reason);
    text.append(" (Got: '");
    text.append(what);
    text.append("')");
    text
}

} // verus!
