//! Path strings: joining a relative path onto a base directory.
//!
//! Paths are carried as `String`s with `/` as the separator.

use vstd::prelude::*;
use crate::text::ends_with;

verus! {

/// `PathBuf::join` of a relative path `rel` onto `base`.
pub open spec fn join_spec(base: Seq<char>, rel: Seq<char>) -> Seq<char> {
    if base.len() == 0 {
        rel
    } else if base.last() == '/' {
        base + rel
    } else {
        base + seq!['/'] + rel
    }
}

/// Join a relative path onto a base directory.
pub fn join(base: &str, rel: &str) -> (r: String)
    ensures
        r@ == join_spec(base@, rel@),
{
    let n = base.unicode_len();
    if n == 0 {
        return String::from_str(rel);
    }
    proof {
        reveal_strlit("/");
        assert("/"@ =~= seq!['/']);
    }
    if ends_with(base, "/") {
        proof {
            assert(base@.skip(n - 1)[0] == base@.last());
        }
        String::from_str(base).concat(rel)
    } else {
        proof {
            assert(base@.skip(n - 1) =~= seq![base@.last()]);
        }
        let r = String::from_str(base).concat("/").concat(rel);
        assert(r@ =~= base@ + seq!['/'] + rel@);
        r
    }
}

} // verus!
