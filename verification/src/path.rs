//! Paths as texts, with `/` between their parts.

use vstd::prelude::*;
use vstd::string::*;

use crate::text::{chars_of, code_of};

verus! {

/// The code of the separator.
pub const SEPARATOR: u32 = 47;

/// `name` under `dir`: an absolute name stands for itself, and a separator goes
/// between the two where `dir` does not bring one.
pub open spec fn under(dir: Seq<char>, name: Seq<char>) -> Seq<char> {
    if name.len() > 0 && name[0] as int == SEPARATOR {
        name
    } else if dir.len() == 0 || dir.last() as int == SEPARATOR {
        dir + name
    } else {
        dir + "/"@ + name
    }
}

/// `name` under `dir`.
pub fn beneath(dir: &str, name: &str) -> (r: String)
    ensures
        r@ == under(dir@, name@),
{
    let outer = chars_of(dir);
    let inner = chars_of(name);
    if inner.len() > 0 && code_of(inner[0]) == SEPARATOR {
        return name.to_owned();
    }
    let mut path = dir.to_owned();
    if outer.len() > 0 && code_of(outer[outer.len() - 1]) != SEPARATOR {
        path.append("/");
    }
    path.append(name);
    path
}

/// A path under a directory is the two with one separator between them; a path
/// that starts at the root is itself, whatever the directory.
pub proof fn law_a_path_has_one_separator_at_the_seam(dir: &str, name: &str, r: String)
    requires
        call_ensures(beneath, (dir, name), r),
    ensures
        name@.len() > 0 && name@[0] == '/' ==> r@ == name@,
        !(name@.len() > 0 && name@[0] == '/') && (dir@.len() == 0 || dir@.last() == '/') ==> r@
            == dir@ + name@,
        !(name@.len() > 0 && name@[0] == '/') && dir@.len() > 0 && dir@.last() != '/' ==> r@
            == dir@.push('/') + name@,
{
    reveal_strlit("/");
    assert(dir@ + "/"@ =~= dir@.push('/'));
}

} // verus!
