//! Branch-name helpers.

use vstd::prelude::*;
use crate::text::{starts_with, str_starts_with};
use vstd::string::StrSliceExecFns;

verus! {

/// The branch name with the heads-namespace prefix removed.
pub open spec fn cleaned_branch(b: Seq<char>) -> Seq<char> {
    if starts_with(b, "refs/heads/"@) {
        b.subrange("refs/heads/"@.len() as int, b.len() as int)
    } else {
        b
    }
}

/// Strip the `refs/heads/` prefix from a fully-qualified branch reference;
/// any other name passes through unchanged.
pub fn clean_branch_name(branch: &str) -> (r: String)
    ensures
        r@ == cleaned_branch(branch@),
{
    proof {
        reveal_strlit("refs/heads/");
    }
    if str_starts_with(branch, "refs/heads/") {
        let n: usize = branch.unicode_len();
        branch.substring_char(11, n).to_owned()
    } else {
        branch.to_owned()
    }
}

} // verus!
