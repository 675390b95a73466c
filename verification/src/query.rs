//! The query command's translation step: turning a user's search term into
//! the query the indexing engine receives. The engine itself is an external
//! collaborator; only the translation is this crate's logic.

use crate::text::{push_char, split_whitespace_words, trim, trim_of, words_of};
use vstd::prelude::*;

verus! {

/// The query modes the indexing engine offers.
#[derive(Debug, PartialEq, Eq, Structural, Clone, Copy)]
pub enum QueryKind {
    /// Exact app-name match.
    App,
    /// Keyword prefix match.
    Keyword,
    /// Full-text match over descriptions and metadata.
    FullText,
}

/// The query subcommand: one positional search term.
#[derive(Debug)]
pub struct QueryCommand {
    pub query: String,
}

/// Words joined by the full-text AND connective.
pub open spec fn join_with_and(words: Seq<Seq<char>>) -> Seq<char>
    decreases words.len(),
{
    if words.len() == 0 {
        Seq::empty()
    } else if words.len() == 1 {
        words[0]
    } else {
        join_with_and(words.drop_last()) + " AND "@ + words.last()
    }
}

/// The kind of query a term translates to: full-text when the trimmed term
/// still holds a space, keyword otherwise.
pub open spec fn spec_query_kind(q: Seq<char>) -> QueryKind {
    if trim_of(q).contains(' ') {
        QueryKind::FullText
    } else {
        QueryKind::Keyword
    }
}

/// The translated query string: the trimmed term's words conjoined with
/// `AND` for a multi-word term, the trimmed term itself otherwise, with a
/// trailing wildcard either way.
pub open spec fn spec_query_term(q: Seq<char>) -> Seq<char> {
    if trim_of(q).contains(' ') {
        join_with_and(words_of(trim_of(q))).push('*')
    } else {
        trim_of(q).push('*')
    }
}

impl QueryCommand {
    /// Translates the user's term: a multi-word term becomes a full-text
    /// AND query with a trailing wildcard, a single word a keyword prefix
    /// query with a trailing wildcard.
    pub fn translate(&self) -> (r: (QueryKind, String))
        ensures
            r.0 == spec_query_kind(self.query@),
            r.1@ == spec_query_term(self.query@),
    {
        let t = trim(self.query.as_str());
        let n = t.as_str().unicode_len();
        let mut has_space = false;
        let mut i: usize = 0;
        while i < n
            invariant
                0 <= i <= n,
                n == t@.len(),
                has_space == exists|j: int| 0 <= j < i && t@[j] == ' ',
            decreases n - i,
        {
            if t.as_str().get_char(i) == ' ' {
                has_space = true;
            }
            i = i + 1;
        }
        if has_space {
            let words = split_whitespace_words(t.as_str());
            let ghost wv = words.deep_view();
            let mut out = String::new();
            let mut k: usize = 0;
            proof {
                assert(wv.take(0) =~= Seq::<Seq<char>>::empty());
            }
            while k < words.len()
                invariant
                    0 <= k <= words@.len(),
                    wv == words.deep_view(),
                    wv.len() == words@.len(),
                    out@ == join_with_and(wv.take(k as int)),
                decreases words@.len() - k,
            {
                if k > 0 {
                    out.append(" AND ");
                }
                out.append(words[k].as_str());
                proof {
                    assert(wv.take(k + 1).drop_last() =~= wv.take(k as int));
                    assert(wv.take(k + 1).last() == wv[k as int]);
                    assert(wv[k as int] == words@[k as int]@);
                }
                k = k + 1;
            }
            proof {
                assert(wv.take(words@.len() as int) =~= wv);
            }
            push_char(&mut out, '*');
            (QueryKind::FullText, out)
        } else {
            let mut out = t;
            push_char(&mut out, '*');
            (QueryKind::Keyword, out)
        }
    }
}

} // verus!
