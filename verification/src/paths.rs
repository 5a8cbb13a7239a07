//! Paths as text, with `/` between their components.

use vstd::prelude::*;
use vstd::string::*;
use crate::text::{chars_of, push_chars};

verus! {

/// The path of `name` below `base`. An empty base gives the name itself, and
/// a base that ends in `/` takes no second `/`.
pub open spec fn joined(base: Seq<char>, name: Seq<char>) -> Seq<char> {
    if base.len() == 0 {
        name
    } else if base.last() == '/' {
        base + name
    } else {
        base + "/"@ + name
    }
}

/// The path that the components give when they are joined one after the
/// other, starting from `base`.
pub open spec fn joined_all(base: Seq<char>, components: Seq<Seq<char>>) -> Seq<char>
    decreases components.len(),
{
    if components.len() == 0 {
        base
    } else {
        joined(joined_all(base, components.drop_last()), components.last())
    }
}

/// The path of `name` below `base`.
pub fn join(base: &str, name: &str) -> (r: String)
    ensures
        r@ == joined(base@, name@),
{
    let b = chars_of(base);
    let mut out = String::new();
    push_chars(&mut out, &b, 0, b.len());
    assert(out@ =~= base@);
    if b.len() > 0 && b[b.len() - 1] != '/' {
        out.append("/");
    }
    out.append(name);
    assert(out@ =~= joined(base@, name@));
    out
}

} // verus!
