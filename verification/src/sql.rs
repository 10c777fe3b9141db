//! Escaping of string values that are spliced into LanceDB SQL predicates.
//!
//! LanceDB has no parameterised queries, so every user-supplied value goes into a
//! single-quoted literal after escaping: single quotes and backslashes are doubled
//! and a NUL character is refused.

use vstd::prelude::*;
use crate::text::{push_char, push_str};

verus! {

broadcast use vstd::string::group_string_axioms;

/// The escaped form of one character.
pub open spec fn escaped_char(c: char) -> Seq<char> {
    if c == '\\' || c == '\'' {
        seq![c, c]
    } else {
        seq![c]
    }
}

/// The escaped form of `s`: every backslash and every single quote doubled.
pub open spec fn sql_escaped(s: Seq<char>) -> Seq<char>
    decreases s.len(),
{
    if s.len() == 0 {
        Seq::empty()
    } else {
        sql_escaped(s.drop_last()) + escaped_char(s.last())
    }
}

/// Reads the body of a single-quoted SQL literal from the left, the way a lexer
/// does: `''` stands for one quote, and, when `backslash_escapes` holds, `\` takes
/// the next character literally. `None` means the text would end the literal
/// early (a lone quote) or leave a dangling backslash; otherwise the literal's value.
pub open spec fn literal_value(t: Seq<char>, backslash_escapes: bool) -> Option<Seq<char>>
    decreases t.len(),
{
    if t.len() == 0 {
        Some(Seq::empty())
    } else if t[0] == '\'' {
        if t.len() >= 2 && t[1] == '\'' {
            match literal_value(t.skip(2), backslash_escapes) {
                Some(v) => Some(seq!['\''] + v),
                None => None,
            }
        } else {
            None
        }
    } else if backslash_escapes && t[0] == '\\' {
        if t.len() >= 2 {
            match literal_value(t.skip(2), backslash_escapes) {
                Some(v) => Some(seq![t[1]] + v),
                None => None,
            }
        } else {
            None
        }
    } else {
        match literal_value(t.skip(1), backslash_escapes) {
            Some(v) => Some(seq![t[0]] + v),
            None => None,
        }
    }
}

/// Escaping distributes over concatenation.
pub proof fn lemma_escaped_concat(a: Seq<char>, b: Seq<char>)
    ensures
        sql_escaped(a + b) == sql_escaped(a) + sql_escaped(b),
    decreases b.len(),
{
    if b.len() == 0 {
        assert(a + b =~= a);
        assert(sql_escaped(a) + sql_escaped(b) =~= sql_escaped(a));
    } else {
        lemma_escaped_concat(a, b.drop_last());
        assert((a + b).drop_last() =~= a + b.drop_last());
        assert((a + b).last() == b.last());
        assert(sql_escaped(a + b) =~= sql_escaped(a) + sql_escaped(b));
    }
}

/// Escaping read from the front: the first character's escape, then the rest.
pub proof fn lemma_escaped_front(s: Seq<char>)
    requires
        s.len() > 0,
    ensures
        sql_escaped(s) == escaped_char(s[0]) + sql_escaped(s.drop_first()),
{
    let head = seq![s[0]];
    assert(head + s.drop_first() =~= s);
    lemma_escaped_concat(head, s.drop_first());
    assert(head.drop_last() =~= Seq::<char>::empty());
    assert(sql_escaped(head.drop_last()) == Seq::<char>::empty());
    assert(head.last() == s[0]);
    assert(sql_escaped(head) =~= escaped_char(s[0]));
}

/// Law: an escaped value, placed between single quotes, reads back as exactly the
/// unescaped value in a dialect where backslash escapes the next character, and in
/// plain standard SQL (no backslash escapes) it never closes the literal early.
pub proof fn law_escaped_literal_reads_back(s: Seq<char>)
    ensures
        literal_value(sql_escaped(s), true) == Some(s),
        literal_value(sql_escaped(s), false) is Some,
    decreases s.len(),
{
    if s.len() == 0 {
    } else {
        let c = s[0];
        let rest = s.drop_first();
        let t = sql_escaped(s);
        lemma_escaped_front(s);
        law_escaped_literal_reads_back(rest);
        if c == '\\' || c == '\'' {
            assert(t.skip(2) =~= sql_escaped(rest));
            assert(t[0] == c && t[1] == c);
            if c == '\\' {
                let u = t.skip(1);
                assert(u[0] == '\\');
                assert(u.skip(1) =~= sql_escaped(rest));
                assert(literal_value(u, false) is Some);
            }
        } else {
            assert(t.skip(1) =~= sql_escaped(rest));
            assert(t[0] == c);
        }
        assert(seq![c] + rest =~= s);
    }
}

/// Escapes a string value for use inside a single-quoted SQL literal: doubles
/// single quotes and backslashes, and refuses a value holding a NUL character.
pub fn escape_sql_string(s: &str) -> (r: Result<String, String>)
    ensures
        s@.contains('\0') <==> r is Err,
        r matches Ok(e) ==> e@ == sql_escaped(s@),
        r matches Err(m) ==> m@ == "Path contains null byte"@,
{
    let mut out = String::new();
    for c in it: s.chars()
        invariant
            it.seq() == s@,
            out@ == sql_escaped(s@.take(it.index() as int)),
            forall|j: int| 0 <= j < it.index() ==> s@[j] != '\0',
    {
        assert(s@.take(it.index() + 1).drop_last() == s@.take(it.index() as int));
        if c == '\0' {
            assert(s@.contains('\0'));
            return Err(String::from_str("Path contains null byte"));
        }
        if c == '\\' || c == '\'' {
            push_char(&mut out, c);
        }
        push_char(&mut out, c);
    }
    assert(s@.take(s@.len() as int) == s@);
    Ok(out)
}

/// The predicate that selects the row whose path equals `path`
/// (`path = '<escaped>'`), as used when removing images.
pub fn path_equals_predicate(path: &str) -> (r: Result<String, String>)
    ensures
        path@.contains('\0') <==> r is Err,
        r matches Ok(p) ==> p@ == "path = '"@ + sql_escaped(path@) + "'"@,
        r matches Err(m) ==> m@ == "Path contains null byte"@,
{
    let escaped = escape_sql_string(path)?;
    let mut p = String::from_str("path = '");
    push_str(&mut p, escaped.as_str());
    push_str(&mut p, "'");
    Ok(p)
}

/// The predicate of a filename search: paths that contain `query` anywhere
/// (`path LIKE '%<escaped>%' `).
pub fn path_like_predicate(query: &str) -> (r: Result<String, String>)
    ensures
        query@.contains('\0') <==> r is Err,
        r matches Ok(p) ==> p@ == "path LIKE '%"@ + sql_escaped(query@) + "%' "@,
        r matches Err(m) ==> m@ == "Path contains null byte"@,
{
    let escaped = escape_sql_string(query)?;
    let mut p = String::from_str("path LIKE '%");
    push_str(&mut p, escaped.as_str());
    push_str(&mut p, "%' ");
    Ok(p)
}

} // verus!
