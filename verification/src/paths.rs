//! Lexical path components and the component-wise prefix test between paths,
//! used to decide which indexed files leave the index together with a watched
//! directory. On Unix `/` separates components; on Windows a backslash does too.

use vstd::prelude::*;
use crate::text::{ascii_upper_char, chars_of, upper_char};

verus! {

/// Whether `c` separates path components: `/`, and on Windows also a backslash.
pub open spec fn is_separator(c: char, windows: bool) -> bool {
    c == '/' || (windows && c == '\\')
}

/// The pieces of `s` between separators, empty pieces included (a string
/// without separators is one piece).
pub open spec fn split_pieces(s: Seq<char>, windows: bool) -> Seq<Seq<char>>
    decreases s.len(),
{
    if s.len() == 0 {
        seq![Seq::empty()]
    } else {
        let rest = split_pieces(s.drop_last(), windows);
        if is_separator(s.last(), windows) {
            rest.push(Seq::empty())
        } else {
            rest.update(rest.len() - 1, rest.last().push(s.last()))
        }
    }
}

/// A path that starts at the root: its first character is a separator.
pub open spec fn is_rooted(s: Seq<char>, windows: bool) -> bool {
    s.len() > 0 && is_separator(s[0], windows)
}

/// A relative path whose first piece is the current directory `"."`.
pub open spec fn leads_with_cur_dir(s: Seq<char>, windows: bool) -> bool {
    s.len() > 0 && s[0] == '.' && (s.len() == 1 || is_separator(s[1], windows))
}

/// A piece that names something: neither empty nor `"."`.
pub open spec fn is_normal_piece(piece: Seq<char>) -> bool {
    piece.len() > 0 && piece != seq!['.']
}

/// The naming pieces of a split path, in order.
pub open spec fn normal_pieces(pieces: Seq<Seq<char>>) -> Seq<Seq<char>> {
    pieces.filter(|p: Seq<char>| is_normal_piece(p))
}

/// The leading component of a path: `"/"` for the root of an absolute path,
/// `"."` for a relative path that starts at the current directory.
pub open spec fn head_component(s: Seq<char>, windows: bool) -> Seq<Seq<char>> {
    if is_rooted(s, windows) {
        seq![seq!['/']]
    } else if leads_with_cur_dir(s, windows) {
        seq![seq!['.']]
    } else {
        Seq::empty()
    }
}

/// The components of a path without a drive prefix: the root (written `"/"`)
/// or a leading current directory (written `"."`), then every piece between
/// separators except empty pieces and `"."`.
pub open spec fn unprefixed_components(s: Seq<char>, windows: bool) -> Seq<Seq<char>> {
    head_component(s, windows) + normal_pieces(split_pieces(s, windows))
}

/// An ASCII letter.
pub open spec fn is_ascii_letter(c: char) -> bool {
    ('a' <= c && c <= 'z') || ('A' <= c && c <= 'Z')
}

/// On Windows, a path that starts with a drive prefix: a letter and `:`.
pub open spec fn has_drive_prefix(s: Seq<char>, windows: bool) -> bool {
    windows && s.len() >= 2 && is_ascii_letter(s[0]) && s[1] == ':'
}

/// The components of a path as std's `Path::components` yields them. On Windows
/// a drive prefix comes first, with its letter in uppercase (std compares drive
/// letters without regard to case), followed by the components of the rest of
/// the path. Other Windows prefixes (`\\?\`, UNC shares) are read as ordinary
/// roots and pieces.
pub open spec fn path_components(s: Seq<char>, windows: bool) -> Seq<Seq<char>> {
    if has_drive_prefix(s, windows) {
        seq![seq![ascii_upper_char(s[0]), ':']] + unprefixed_components(s.skip(2), windows)
    } else {
        unprefixed_components(s, windows)
    }
}

/// `path` lies at or under `base`, component by component
/// (std's `Path::starts_with`).
pub open spec fn path_starts_with(path: Seq<char>, base: Seq<char>, windows: bool) -> bool {
    path_components(base, windows).is_prefix_of(path_components(path, windows))
}

/// The character sequences held by a vector of character vectors.
pub open spec fn piece_texts(v: Seq<Vec<char>>) -> Seq<Seq<char>> {
    Seq::new(v.len(), |i: int| v[i]@)
}

proof fn lemma_split_nonempty(s: Seq<char>, windows: bool)
    ensures
        split_pieces(s, windows).len() >= 1,
    decreases s.len(),
{
    if s.len() > 0 {
        lemma_split_nonempty(s.drop_last(), windows);
    }
}

fn separator(c: char, windows: bool) -> (r: bool)
    ensures
        r == is_separator(c, windows),
{
    c == '/' || (windows && c == '\\')
}

fn is_normal(piece: &Vec<char>) -> (r: bool)
    ensures
        r == is_normal_piece(piece@),
{
    if piece.len() == 0 {
        false
    } else if piece.len() == 1 && piece[0] == '.' {
        assert(piece@ == seq!['.']);
        false
    } else {
        assert(piece@ != seq!['.']) by {
            if piece@.len() == 1 {
                assert(piece@[0] != seq!['.'][0]);
            }
        }
        true
    }
}

/// The components of `path` (see `path_components`); `windows` selects the
/// Windows separators and drive prefixes.
pub fn components(path: &str, windows: bool) -> (r: Vec<Vec<char>>)
    ensures
        piece_texts(r@) == path_components(path@, windows),
{
    let cs = chars_of(path);
    if windows && cs.len() >= 2 && is_letter(cs[0]) && cs[1] == ':' {
        let mut tail: Vec<char> = Vec::new();
        let mut k: usize = 2;
        while k < cs.len()
            invariant
                2 <= k <= cs@.len(),
                tail@ == cs@.subrange(2, k as int),
            decreases cs.len() - k,
        {
            tail.push(cs[k]);
            assert(tail@ =~= cs@.subrange(2, k + 1));
            k = k + 1;
        }
        assert(tail@ =~= cs@.skip(2));
        let mut rest = unprefixed_of(&tail, windows);
        let ghost rest_view = rest@;
        let mut out: Vec<Vec<char>> = Vec::new();
        out.push(vec![upper_char(cs[0]), ':']);
        assert(out@[0]@ =~= seq![ascii_upper_char(cs@[0]), ':']);
        out.append(&mut rest);
        assert(piece_texts(out@) =~= seq![seq![ascii_upper_char(cs@[0]), ':']] + piece_texts(rest_view));
        out
    } else {
        unprefixed_of(&cs, windows)
    }
}

fn is_letter(c: char) -> (r: bool)
    ensures
        r == is_ascii_letter(c),
{
    ('a' <= c && c <= 'z') || ('A' <= c && c <= 'Z')
}

fn unprefixed_of(cs: &Vec<char>, windows: bool) -> (r: Vec<Vec<char>>)
    ensures
        piece_texts(r@) == unprefixed_components(cs@, windows),
{
    let n = cs.len();
    let mut out: Vec<Vec<char>> = Vec::new();
    let rooted = n > 0 && separator(cs[0], windows);
    let cur_lead = n > 0 && cs[0] == '.' && (n == 1 || separator(cs[1], windows));
    if rooted {
        out.push(vec!['/']);
        assert(out@[0]@ =~= seq!['/']);
    } else if cur_lead {
        out.push(vec!['.']);
        assert(out@[0]@ =~= seq!['.']);
    }
    let ghost head = head_component(cs@, windows);
    assert(piece_texts(out@) =~= head);
    let mut cur: Vec<char> = Vec::new();
    let mut i: usize = 0;
    proof {
        assert(cs@.take(0) =~= Seq::<char>::empty());
        reveal_with_fuel(Seq::filter, 1);
        assert(split_pieces(cs@.take(0), windows).drop_last() =~= Seq::<Seq<char>>::empty());
    }
    while i < n
        invariant
            n == cs@.len(),
            i <= n,
            head == head_component(cs@, windows),
            piece_texts(out@) == head + normal_pieces(split_pieces(cs@.take(i as int), windows).drop_last()),
            cur@ == split_pieces(cs@.take(i as int), windows).last(),
        decreases n - i,
    {
        let c = cs[i];
        let ghost s = cs@.take(i + 1);
        let ghost rest = split_pieces(cs@.take(i as int), windows);
        proof {
            assert(s.drop_last() =~= cs@.take(i as int));
            assert(s.last() == c);
            lemma_split_nonempty(cs@.take(i as int), windows);
            assert(rest =~= rest.drop_last().push(rest.last()));
            reveal_with_fuel(Seq::filter, 1);
        }
        if separator(c, windows) {
            assert(split_pieces(s, windows) == rest.push(Seq::empty()));
            assert(split_pieces(s, windows).drop_last() =~= rest);
            if is_normal(&cur) {
                let ghost before = out@;
                let ghost piece = cur@;
                out.push(cur);
                assert(piece_texts(out@) =~= piece_texts(before).push(piece));
                assert(normal_pieces(rest) == normal_pieces(rest.drop_last()).push(rest.last()));
                assert(piece_texts(out@) =~= head + normal_pieces(rest));
            } else {
                assert(normal_pieces(rest) == normal_pieces(rest.drop_last()));
            }
            cur = Vec::new();
            assert(cur@ =~= split_pieces(s, windows).last());
        } else {
            let ghost next = split_pieces(s, windows);
            assert(next == rest.update(rest.len() - 1, rest.last().push(c)));
            assert(next.drop_last() =~= rest.drop_last());
            cur.push(c);
            assert(cur@ == next.last());
        }
        i = i + 1;
    }
    let ghost all = split_pieces(cs@, windows);
    proof {
        assert(cs@.take(n as int) =~= cs@);
        lemma_split_nonempty(cs@, windows);
        assert(all =~= all.drop_last().push(all.last()));
        reveal_with_fuel(Seq::filter, 1);
    }
    if is_normal(&cur) {
        let ghost before = out@;
        let ghost piece = cur@;
        out.push(cur);
        assert(piece_texts(out@) =~= piece_texts(before).push(piece));
        assert(normal_pieces(all) == normal_pieces(all.drop_last()).push(all.last()));
        assert(piece_texts(out@) =~= head + normal_pieces(all));
    } else {
        assert(normal_pieces(all) == normal_pieces(all.drop_last()));
    }
    out
}

fn same_chars(a: &Vec<char>, b: &Vec<char>) -> (r: bool)
    ensures
        r == (a@ == b@),
{
    if a.len() != b.len() {
        return false;
    }
    let mut i: usize = 0;
    while i < a.len()
        invariant
            a@.len() == b@.len(),
            i <= a@.len(),
            forall|j: int| 0 <= j < i ==> a@[j] == b@[j],
        decreases a.len() - i,
    {
        if a[i] != b[i] {
            return false;
        }
        i = i + 1;
    }
    assert(a@ =~= b@);
    true
}

/// Whether the component list `base` is a prefix of the component list `path`.
pub fn components_start_with(path: &Vec<Vec<char>>, base: &Vec<Vec<char>>) -> (r: bool)
    ensures
        r == piece_texts(base@).is_prefix_of(piece_texts(path@)),
{
    let ghost pt = piece_texts(path@);
    let ghost bt = piece_texts(base@);
    if base.len() > path.len() {
        return false;
    }
    let mut i: usize = 0;
    while i < base.len()
        invariant
            base@.len() <= path@.len(),
            pt == piece_texts(path@),
            bt == piece_texts(base@),
            i <= base@.len(),
            forall|j: int| 0 <= j < i ==> bt[j] == pt[j],
        decreases base.len() - i,
    {
        if !same_chars(&path[i], &base[i]) {
            assert(bt[i as int] != pt.subrange(0, bt.len() as int)[i as int]);
            return false;
        }
        i = i + 1;
    }
    assert(bt =~= pt.subrange(0, bt.len() as int));
    true
}

/// Whether `path` lies at or under `base`, component by component.
pub fn starts_with(path: &str, base: &str, windows: bool) -> (r: bool)
    ensures
        r == path_starts_with(path@, base@, windows),
{
    let pc = components(path, windows);
    let bc = components(base, windows);
    components_start_with(&pc, &bc)
}

/// `p` lies at or under one of `dirs`.
pub open spec fn under_any(p: Seq<char>, dirs: Seq<String>, windows: bool) -> bool {
    exists|j: int| 0 <= j < dirs.len() && path_starts_with(p, #[trigger] dirs[j]@, windows)
}

/// `p` goes when `removed` stops being watched while `remaining` still are:
/// it lies under `removed` and under none of `remaining`.
pub open spec fn leaves_with(p: Seq<char>, removed: Seq<char>, remaining: Seq<String>, windows: bool) -> bool {
    path_starts_with(p, removed, windows) && !under_any(p, remaining, windows)
}

/// The paths of `all`, in order, that go together with `removed`.
pub open spec fn leaving_paths(all: Seq<String>, removed: Seq<char>, remaining: Seq<String>, windows: bool) -> Seq<String> {
    all.filter(|p: String| leaves_with(p@, removed, remaining, windows))
}

fn under_any_components(pc: &Vec<Vec<char>>, dirs: &Vec<Vec<Vec<char>>>) -> (r: bool)
    ensures
        r == exists|j: int|
            0 <= j < dirs@.len() && (#[trigger] piece_texts(dirs@[j]@)).is_prefix_of(piece_texts(pc@)),
{
    let mut k: usize = 0;
    while k < dirs.len()
        invariant
            k <= dirs@.len(),
            forall|j: int| 0 <= j < k ==> !(#[trigger] piece_texts(dirs@[j]@)).is_prefix_of(piece_texts(pc@)),
        decreases dirs.len() - k,
    {
        if components_start_with(pc, &dirs[k]) {
            return true;
        }
        k = k + 1;
    }
    false
}

/// The indexed paths that leave the index when the watched directory `removed`
/// is dropped while the directories `remaining` stay watched: those at or under
/// `removed` and under none of `remaining`, in the order given.
pub fn paths_leaving_with(
    all_paths: Vec<String>,
    removed: &str,
    remaining: &Vec<String>,
    windows: bool,
) -> (r: Vec<String>)
    ensures
        r@ == leaving_paths(all_paths@, removed@, remaining@, windows),
{
    let removed_c = components(removed, windows);
    let mut dirs_c: Vec<Vec<Vec<char>>> = Vec::new();
    let mut j: usize = 0;
    while j < remaining.len()
        invariant
            j <= remaining@.len(),
            dirs_c@.len() == j,
            forall|k: int| 0 <= k < j ==> #[trigger] piece_texts(dirs_c@[k]@) == path_components(remaining@[k]@, windows),
        decreases remaining.len() - j,
    {
        let c = components(remaining[j].as_str(), windows);
        dirs_c.push(c);
        j = j + 1;
    }
    let ghost ds = all_paths@;
    let mut out: Vec<String> = Vec::new();
    for p in it: all_paths
        invariant
            it.seq() == ds,
            piece_texts(removed_c@) == path_components(removed@, windows),
            dirs_c@.len() == remaining@.len(),
            forall|k: int| 0 <= k < remaining@.len() ==> #[trigger] piece_texts(dirs_c@[k]@) == path_components(remaining@[k]@, windows),
            out@ == leaving_paths(ds.take(it.index() as int), removed@, remaining@, windows),
    {
        let ghost k = it.index() as int;
        assert(ds.take(k + 1).drop_last() == ds.take(k));
        assert(ds.take(k + 1).last() == p);
        let pc = components(p.as_str(), windows);
        let inside = components_start_with(&pc, &removed_c);
        let kept = under_any_components(&pc, &dirs_c);
        proof {
            reveal_with_fuel(Seq::filter, 1);
            if kept {
                let w = choose|w: int|
                    0 <= w < dirs_c@.len() && (#[trigger] piece_texts(dirs_c@[w]@)).is_prefix_of(piece_texts(pc@));
                assert(path_starts_with(p@, remaining@[w]@, windows));
            } else {
                assert forall|w: int| 0 <= w < remaining@.len() implies !path_starts_with(p@, #[trigger] remaining@[w]@, windows) by {
                    assert(piece_texts(dirs_c@[w]@) == path_components(remaining@[w]@, windows));
                }
            }
        }
        if inside && !kept {
            out.push(p);
        }
    }
    assert(ds.take(ds.len() as int) == ds);
    out
}

proof fn lemma_prefix_transitive(a: Seq<Seq<char>>, b: Seq<Seq<char>>, c: Seq<Seq<char>>)
    requires
        a.is_prefix_of(b),
        b.is_prefix_of(c),
    ensures
        a.is_prefix_of(c),
{
    assert forall|i: int| 0 <= i < a.len() implies a[i] == c.subrange(0, a.len() as int)[i] by {
        assert(a[i] == b.subrange(0, a.len() as int)[i]);
        assert(b[i] == c.subrange(0, b.len() as int)[i]);
    }
    assert(a =~= c.subrange(0, a.len() as int));
}

/// Lying under a directory is transitive: what lies under `inner`, which lies
/// under `outer`, lies under `outer`.
pub proof fn law_starts_with_transitive(p: Seq<char>, inner: Seq<char>, outer: Seq<char>, windows: bool)
    requires
        path_starts_with(p, inner, windows),
        path_starts_with(inner, outer, windows),
    ensures
        path_starts_with(p, outer, windows),
{
    lemma_prefix_transitive(path_components(outer, windows), path_components(inner, windows), path_components(p, windows));
}

/// Dropping a directory that lies inside another directory still watched takes
/// no file with it.
pub proof fn law_nested_removal_keeps_all(all: Seq<String>, removed: Seq<char>, remaining: Seq<String>, windows: bool)
    requires
        under_any(removed, remaining, windows),
    ensures
        leaving_paths(all, removed, remaining, windows).len() == 0,
{
    let out = leaving_paths(all, removed, remaining, windows);
    let j = choose|j: int| 0 <= j < remaining.len() && path_starts_with(removed, #[trigger] remaining[j]@, windows);
    if out.len() > 0 {
        all.lemma_filter_pred(|p: String| leaves_with(p@, removed, remaining, windows), 0);
        law_starts_with_transitive(out[0]@, removed, remaining[j]@, windows);
        assert(false);
    }
}

/// Every directory lies at or under itself.
pub proof fn law_starts_with_reflexive(p: Seq<char>, windows: bool)
    ensures
        path_starts_with(p, p, windows),
{
    assert(path_components(p, windows) =~= path_components(p, windows).subrange(0, path_components(p, windows).len() as int));
}

} // verus!
