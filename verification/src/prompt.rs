//! Reading the answer to a question that asks for yes or no.

use crate::text::{ascii_lowercase, to_ascii_lowercase, to_chars, trim, trimmed};
use vstd::prelude::*;

verus! {

/// Whether `answer` says yes: apart from the white space around it and from
/// the case of its letters it is `y` or `yes`, or it is empty, since yes is
/// what the question proposes.
pub open spec fn says_yes(answer: Seq<char>) -> bool {
    let said = ascii_lowercase(trim(answer));
    said.len() == 0 || said == "y"@ || said == "yes"@
}

/// Whether the line `answer`, as the user typed it, says yes.
pub fn is_affirmative(answer: &str) -> (r: bool)
    ensures
        r == says_yes(answer@),
{
    let chars = to_chars(answer);
    let said = to_ascii_lowercase(trimmed(chars.as_slice()));
    proof {
        reveal_strlit("y");
        reveal_strlit("yes");
    }
    let n = said.len();
    if n == 0 {
        true
    } else if n == 1 {
        let yes = said[0] == 'y';
        assert(yes == (said@ =~= "y"@));
        yes
    } else if n == 3 {
        let yes = said[0] == 'y' && said[1] == 'e' && said[2] == 's';
        assert(yes == (said@ =~= "yes"@));
        yes
    } else {
        false
    }
}

} // verus!
