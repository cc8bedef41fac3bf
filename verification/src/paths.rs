//! Joining of path components, with the separator rule of Unix paths.

use vstd::prelude::*;
use vstd::string::*;

verus! {

/// `base` followed by the relative `component`: a `/` goes between them
/// unless `base` is empty or already ends in `/`.
pub open spec fn join_path(base: Seq<char>, component: Seq<char>) -> Seq<char> {
    if base.len() == 0 {
        component
    } else if base.last() == '/' {
        base + component
    } else {
        base + seq!['/'] + component
    }
}

/// Appends the relative `component` to `base`.
pub fn join(base: &str, component: &str) -> (joined: String)
    ensures
        joined@ == join_path(base@, component@),
{
    let n = base.unicode_len();
    let mut joined = String::from_str(base);
    if n > 0 && base.get_char(n - 1) != '/' {
        let sep = "/";
        proof {
            reveal_strlit("/");
        }
        joined.append(sep);
    }
    joined.append(component);
    joined
}

} // verus!
