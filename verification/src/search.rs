//! How a search request is answered: an empty query lists everything, otherwise
//! the query's text embedding drives a vector search, with a filename search as
//! the fallback when no embedding is available.

use vstd::prelude::*;

verus! {

/// Number of results a search returns.
pub const SEARCH_LIMIT: usize = 100;

/// Unicode `White_Space`, the property behind `char::is_whitespace` and `str::trim`.
pub open spec fn is_white_space(c: char) -> bool {
    ||| '\u{9}' <= c <= '\u{d}'
    ||| c == ' '
    ||| c == '\u{85}'
    ||| c == '\u{a0}'
    ||| c == '\u{1680}'
    ||| '\u{2000}' <= c <= '\u{200a}'
    ||| c == '\u{2028}'
    ||| c == '\u{2029}'
    ||| c == '\u{202f}'
    ||| c == '\u{205f}'
    ||| c == '\u{3000}'
}

/// Whether a character is Unicode white space.
pub fn white_space(c: char) -> (r: bool)
    ensures
        r == is_white_space(c),
{
    ('\u{9}' <= c && c <= '\u{d}') || c == ' ' || c == '\u{85}' || c == '\u{a0}' || c == '\u{1680}'
        || ('\u{2000}' <= c && c <= '\u{200a}') || c == '\u{2028}' || c == '\u{2029}' || c == '\u{202f}'
        || c == '\u{205f}' || c == '\u{3000}'
}

/// A query is blank when trimming white space leaves nothing.
pub open spec fn blank(q: Seq<char>) -> bool {
    forall|i: int| 0 <= i < q.len() ==> is_white_space(#[trigger] q[i])
}

/// Whether a query is empty after trimming white space.
pub fn is_blank_query(query: &str) -> (r: bool)
    ensures
        r == blank(query@),
{
    for c in it: query.chars()
        invariant
            it.seq() == query@,
            forall|i: int| 0 <= i < it.index() ==> is_white_space(#[trigger] query@[i]),
    {
        if !white_space(c) {
            return false;
        }
    }
    true
}

/// The kind of search that answers a request.
pub enum SearchPlan<E> {
    /// List every indexed image.
    ListAll,
    /// Vector search with the query's embedding.
    Vector(E),
    /// Match the query against file paths.
    Filename,
}

/// Chooses how to answer a search: a blank query lists everything; otherwise the
/// query's embedding (when the model produced one) drives a vector search, and
/// without one the query is matched against file names.
pub fn plan_search<E>(query: &str, embedding: Option<E>) -> (r: SearchPlan<E>)
    ensures
        blank(query@) ==> r is ListAll,
        !blank(query@) ==> match embedding {
            Some(e) => r matches SearchPlan::Vector(v) && v == e,
            None => r is Filename,
        },
{
    if is_blank_query(query) {
        return SearchPlan::ListAll;
    }
    match embedding {
        Some(e) => SearchPlan::Vector(e),
        None => SearchPlan::Filename,
    }
}

} // verus!
