//! Filesystem-facing traits and the one computation among them: removing a
//! path, creating a directory, resolving an absolute form. The filesystem
//! work lives in the embedding program, which implements these traits; the
//! prefix cleanup of resolved paths is verified here.

use vstd::prelude::*;

verus! {

/// Removes a file or a directory tree.
pub trait Remove {
    type Error;

    fn rm(&self) -> Result<(), Self::Error>;
}

/// Creates a directory, with its parents.
pub trait CreateDir {
    type Error;

    fn create(path: &Self) -> Result<(), Self::Error>;
}

/// Resolves a path to its absolute, cleaned form.
pub trait Absolute: Sized {
    type Error;

    fn absolute(&self) -> Result<Self, Self::Error>;
}

/// A canonicalized path with the `\\?\` extended-length prefix removed, or
/// unchanged when it carries none.
pub open spec fn spec_without_verbatim_prefix(s: Seq<char>) -> Seq<char> {
    if s.len() >= 4 && s.take(4) == "\\\\?\\"@ {
        s.skip(4)
    } else {
        s
    }
}

/// Removes the `\\?\` prefix that canonicalization prepends on some
/// platforms, so the path reads as users wrote it.
pub fn strip_verbatim_prefix(s: &str) -> (r: String)
    ensures
        r@ == spec_without_verbatim_prefix(s@),
{
    proof {
        reveal_strlit("\\\\?\\");
    }
    let n = s.unicode_len();
    if n >= 4 {
        let m0 = s.get_char(0) == '\\';
        let m1 = s.get_char(1) == '\\';
        let m2 = s.get_char(2) == '?';
        let m3 = s.get_char(3) == '\\';
        if m0 && m1 && m2 && m3 {
            proof {
                assert(s@.take(4) =~= "\\\\?\\"@);
            }
            let rest = s.substring_char(4, n);
            proof {
                assert(rest@ =~= s@.skip(4));
            }
            rest.to_owned()
        } else {
            proof {
                if s@.take(4) == "\\\\?\\"@ {
                    assert(s@.take(4)[0] == s@[0] && s@.take(4)[1] == s@[1] && s@.take(4)[2]
                        == s@[2] && s@.take(4)[3] == s@[3]);
                    assert("\\\\?\\"@[0] == '\\' && "\\\\?\\"@[1] == '\\' && "\\\\?\\"@[2] == '?'
                        && "\\\\?\\"@[3] == '\\');
                    assert(false);
                }
            }
            s.to_owned()
        }
    } else {
        s.to_owned()
    }
}

} // verus!
