//! Small text operations the engine needs: appending a character, trimming,
//! case folding, whitespace splitting, and path sanitization. What std
//! computes over Unicode tables is called through trusted wrappers whose
//! results are named; the rest is verified character work.

use vstd::prelude::*;

verus! {

/// Relies on String::push: appends exactly one character.
#[verifier::external_body]
pub(crate) fn push_char(s: &mut String, c: char)
    ensures
        final(s)@ == old(s)@.push(c),
{
    s.push(c);
}

/// What str::trim returns: the input without leading and trailing Unicode
/// whitespace, a function of the characters alone.
pub uninterp spec fn trim_of(s: Seq<char>) -> Seq<char>;

/// Relies on str::trim: removes leading and trailing whitespace, nothing
/// else; an empty string stays empty.
#[verifier::external_body]
pub(crate) fn trim(s: &str) -> (r: String)
    ensures
        r@ == trim_of(s@),
        s@.len() == 0 ==> r@.len() == 0,
{
    s.trim().to_owned()
}

/// What str::to_lowercase returns, a function of the characters alone.
pub uninterp spec fn lower_of(s: Seq<char>) -> Seq<char>;

/// Relies on str::to_lowercase: the Unicode lowercase form of the input; an
/// empty string stays empty.
#[verifier::external_body]
pub(crate) fn lowercase(s: &str) -> (r: String)
    ensures
        r@ == lower_of(s@),
        s@.len() == 0 ==> r@.len() == 0,
{
    s.to_lowercase()
}

/// What str::split_whitespace returns: the whitespace-separated words of the
/// input, in order, a function of the characters alone.
pub uninterp spec fn words_of(s: Seq<char>) -> Seq<Seq<char>>;

/// Relies on str::split_whitespace: the words of the input, each nonempty,
/// in input order.
#[verifier::external_body]
pub(crate) fn split_whitespace_words(s: &str) -> (r: Vec<String>)
    ensures
        r.deep_view() == words_of(s@),
{
    s.split_whitespace().map(str::to_owned).collect()
}

/// Every path separator replaced by an underscore, character for character.
pub open spec fn sanitized(s: Seq<char>) -> Seq<char> {
    s.map_values(
        |c: char|
            if c == '/' {
                '_'
            } else {
                c
            },
    )
}

/// Replaces `/` by `_` so the result is a single path segment.
pub fn sanitize(s: &str) -> (r: String)
    ensures
        r@ == sanitized(s@),
{
    let n = s.unicode_len();
    let mut out = String::new();
    let mut i: usize = 0;
    while i < n
        invariant
            0 <= i <= n,
            n == s@.len(),
            out@ =~= sanitized(s@.take(i as int)),
        decreases n - i,
    {
        let c = s.get_char(i);
        let ghost prev = out@;
        if c == '/' {
            push_char(&mut out, '_');
        } else {
            push_char(&mut out, c);
        }
        proof {
            assert(sanitized(s@.take(i + 1)) =~= sanitized(s@.take(i as int)).push(
                if s@[i as int] == '/' {
                    '_'
                } else {
                    s@[i as int]
                },
            ));
        }
        i = i + 1;
    }
    proof {
        assert(s@.take(n as int) =~= s@);
    }
    out
}

/// The index of the first `/`, scanning from `i`.
pub open spec fn first_slash_from(s: Seq<char>, i: int) -> Option<int>
    decreases s.len() - i,
{
    if i < 0 || i >= s.len() {
        None
    } else if s[i] == '/' {
        Some(i)
    } else {
        first_slash_from(s, i + 1)
    }
}

/// What splitting an app reference on its first `/` yields, if anything.
pub open spec fn spec_split_slash(s: Seq<char>) -> Option<(Seq<char>, Seq<char>)> {
    match first_slash_from(s, 0) {
        None => None,
        Some(i) => Some((s.take(i), s.skip(i + 1))),
    }
}

/// Splits at the first `/`, like str::split_once('/'): the part before it
/// and the part after it, or nothing when the string has no `/`.
pub fn split_once_slash(s: &str) -> (r: Option<(String, String)>)
    ensures
        match r {
            None => spec_split_slash(s@) is None,
            Some(p) => spec_split_slash(s@) == Some((p.0@, p.1@)),
        },
{
    let n = s.unicode_len();
    let mut i: usize = 0;
    while i < n
        invariant
            0 <= i <= n,
            n == s@.len(),
            first_slash_from(s@, 0) == first_slash_from(s@, i as int),
            forall|j: int| 0 <= j < i ==> s@[j] != '/',
        decreases n - i,
    {
        let c = s.get_char(i);
        if c == '/' {
            let before = s.substring_char(0, i);
            let after = s.substring_char(i + 1, n);
            proof {
                assert(before@ =~= s@.take(i as int));
                assert(after@ =~= s@.skip(i + 1));
            }
            return Some((before.to_owned(), after.to_owned()));
        }
        i = i + 1;
    }
    None
}

} // verus!
