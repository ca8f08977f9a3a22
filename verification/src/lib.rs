use vstd::prelude::*;

use vstd::string::StrSliceExecFns;
use vstd::string::StringExecFns;

pub mod catalog;
pub mod config;
pub mod chunk;
pub mod i18n;
pub mod langs;
pub mod reducer;
pub mod report;
pub mod search;
pub mod text;

verus! {

/// A directory path in textual form always ends in a slash once it has
/// passed through here; one that already ends in a slash is unchanged.
pub fn add_ending_slash(path: String) -> (r: String)
    ensures
        path@.len() > 0 && path@.last() == '/' ==> r@ == path@,
        !(path@.len() > 0 && path@.last() == '/') ==> r@ == path@.push('/'),
{
    let n = path.as_str().unicode_len();
    if n > 0 && path.as_str().get_char(n - 1) == '/' {
        path
    } else {
        proof {
            reveal_strlit("/");
        }
        let r = path.concat("/");
        proof {
            assert(r@ =~= path@.push('/'));
        }
        r
    }
}

} // verus!
