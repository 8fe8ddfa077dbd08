//! Paths as text: joining a base directory and a component the way a
//! POSIX `PathBuf::join` does.
use vstd::prelude::*;

use crate::text::{chars_of, push_char, string_from};

verus! {

/// `base` joined with `name`: an absolute `name` replaces the base; an
/// empty base yields `name`; otherwise one `/` separates them (none added
/// when the base already ends in `/`).
pub open spec fn path_join_spec(base: Seq<char>, name: Seq<char>) -> Seq<char> {
    if name.len() > 0 && name[0] == '/' {
        name
    } else if base.len() == 0 {
        name
    } else if base.last() == '/' {
        base + name
    } else {
        base.push('/') + name
    }
}

/// Join a path and a component.
pub fn path_join(base: &str, name: &str) -> (r: String)
    ensures
        r@ == path_join_spec(base@, name@),
{
    let b = chars_of(base);
    let n = chars_of(name);
    if n.len() > 0 && n[0] == '/' {
        return string_from(name);
    }
    if b.len() == 0 {
        return string_from(name);
    }
    let mut r = string_from(base);
    if b[b.len() - 1] != '/' {
        push_char(&mut r, '/');
    }
    r.append(name);
    r
}

} // verus!
