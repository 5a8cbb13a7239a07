//! Scratch storage: a directory of the run's own, and the names under which
//! it and the things in it are created.

use vstd::prelude::*;
use vstd::string::*;
use crate::text::{hex8, push_hex8, slice_view};

verus! {

/// Draws a number with `rand::random::<u32>()`, which takes it from the
/// thread's random number generator. Nothing is claimed of the number.
#[verifier::external_body]
pub(crate) fn random_u32() -> (n: u32) {
    rand::random::<u32>()
}

/// The name that the number `n` gives: the prefix and a hyphen, where there
/// is a prefix, then the eight hexadecimal digits of `n`, then the
/// extension.
pub open spec fn scratch_name_of(prefix: Option<Seq<char>>, n: u32, extension: Seq<char>) -> Seq<
    char,
> {
    match prefix {
        Some(p) => p + "-"@ + hex8(n) + extension,
        None => hex8(n) + extension,
    }
}

/// The name that the number `n` gives.
pub fn scratch_name(prefix: Option<&str>, n: u32, extension: &str) -> (r: String)
    ensures
        r@ == scratch_name_of(slice_view(prefix), n, extension@),
{
    let mut out = String::new();
    match prefix {
        Some(p) => {
            out.append(p);
            out.append("-");
        },
        None => {},
    }
    push_hex8(&mut out, n);
    out.append(extension);
    proof {
        match prefix {
            Some(p) => {
                assert(out@ =~= p@ + "-"@ + hex8(n) + extension@);
            },
            None => {
                assert(out@ =~= hex8(n) + extension@);
            },
        }
    }
    out
}

/// A name to try for a new scratch entry. Each call draws a new number: the
/// caller creates the entry under the first name that is still free.
pub fn candidate_name(prefix: Option<&str>, extension: &str) -> (r: String)
    ensures
        exists|n: u32| r@ == #[trigger] scratch_name_of(slice_view(prefix), n, extension@),
{
    let n = random_u32();
    scratch_name(prefix, n, extension)
}

/// The scratch directory of a run: everything that the run unpacks or
/// exports lies below its path.
#[derive(Debug)]
pub struct TempDir {
    pub path: String,
}

impl TempDir {
    /// The scratch directory at `path`.
    pub fn at(path: String) -> (r: TempDir)
        ensures
            r.path@ == path@,
    {
        TempDir { path }
    }

    /// The path of the scratch directory.
    pub fn path(&self) -> (r: &str)
        ensures
            r@ == self.path@,
    {
        self.path.as_str()
    }

    /// A name to try for the scratch directory itself.
    pub fn root_candidate(prefix: &str) -> (r: String)
        ensures
            exists|n: u32| r@ == #[trigger] scratch_name_of(Some(prefix@), n, Seq::empty()),
    {
        let n = random_u32();
        let name = scratch_name(Some(prefix), n, "");
        proof {
            reveal_strlit("");
            assert(""@ =~= Seq::<char>::empty());
        }
        name
    }

    /// A name to try for a new directory below the scratch directory.
    pub fn subdir_candidate(&self) -> (r: String)
        ensures
            exists|n: u32| r@ == #[trigger] scratch_name_of(None, n, Seq::empty()),
    {
        let n = random_u32();
        let name = scratch_name(None, n, "");
        proof {
            reveal_strlit("");
            assert(""@ =~= Seq::<char>::empty());
        }
        name
    }

    /// A name to try for a new file below the scratch directory.
    pub fn subfile_candidate(&self, extension: &str) -> (r: String)
        ensures
            exists|n: u32| r@ == #[trigger] scratch_name_of(None, n, extension@),
    {
        candidate_name(None, extension)
    }
}

} // verus!
