//! Decisions of the first-launch CUDA library download: progress reports, the
//! search-path update, the size check of a finished download, and which archive
//! entries to extract.

use vstd::prelude::*;
use crate::text::{ascii_lower, ascii_lower_char, chars_of, dec, lower_char, push_char, push_decimal, push_str, str_equal};

verus! {

broadcast use vstd::string::group_string_axioms;

/// A progress report shown while runtime libraries are fetched.
pub struct DownloadProgress {
    pub phase: String,
    pub current_bytes: u64,
    pub total_bytes: u64,
}

impl DownloadProgress {
    /// The final report: phase `done`, no byte counts.
    pub fn done() -> (r: DownloadProgress)
        ensures
            r.phase@ == "done"@,
            r.current_bytes == 0,
            r.total_bytes == 0,
    {
        DownloadProgress { phase: String::from_str("done"), current_bytes: 0, total_bytes: 0 }
    }
}

/// The `;`-separated entries of a search path, as `str::split(';')` yields them
/// (an empty text is one empty entry).
pub open spec fn path_entries(s: Seq<char>) -> Seq<Seq<char>>
    decreases s.len(),
{
    if s.len() == 0 {
        seq![Seq::empty()]
    } else {
        let init = path_entries(s.drop_last());
        if s.last() == ';' {
            init.push(Seq::empty())
        } else {
            init.update(init.len() - 1, init.last().push(s.last()))
        }
    }
}

/// The search path always has at least one entry.
pub proof fn lemma_path_entries_nonempty(s: Seq<char>)
    ensures
        path_entries(s).len() >= 1,
    decreases s.len(),
{
    if s.len() > 0 {
        lemma_path_entries_nonempty(s.drop_last());
    }
}

/// Two texts are equal ignoring ASCII case.
pub open spec fn eq_ignore_ascii_case(a: Seq<char>, b: Seq<char>) -> bool {
    ascii_lower(a) == ascii_lower(b)
}

/// The search path with `dir` in front, or `None` when one of its entries is
/// already `dir` (ignoring ASCII case).
pub open spec fn prepended_path(current: Seq<char>, dir: Seq<char>) -> Option<Seq<char>> {
    if exists|j: int| 0 <= j < path_entries(current).len() && eq_ignore_ascii_case(
        #[trigger] path_entries(current)[j],
        dir,
    ) {
        None
    } else if current.len() == 0 {
        Some(dir)
    } else {
        Some(dir + ";"@ + current)
    }
}

/// Whether the characters of `a`, ASCII-lowercased, equal `b_lower`.
fn lower_equals(a: &Vec<char>, b_lower: &Vec<char>) -> (r: bool)
    ensures
        r == (ascii_lower(a@) == b_lower@),
{
    if a.len() != b_lower.len() {
        return false;
    }
    let mut i: usize = 0;
    while i < a.len()
        invariant
            a@.len() == b_lower@.len(),
            i <= a@.len(),
            forall|j: int| 0 <= j < i ==> ascii_lower_char(a@[j]) == b_lower@[j],
        decreases a.len() - i,
    {
        if lower_char(a[i]) != b_lower[i] {
            assert(ascii_lower(a@)[i as int] != b_lower@[i as int]);
            return false;
        }
        i = i + 1;
    }
    assert(ascii_lower(a@) =~= b_lower@);
    true
}

/// Computes the process search path with `dir` prepended (entries separated by
/// `;`); `None` when `dir` is already one of its entries, ignoring ASCII case.
pub fn prepend_to_path(current: &str, dir: &str) -> (r: Option<String>)
    ensures
        r matches Some(p) ==> prepended_path(current@, dir@) == Some(p@),
        r is None ==> prepended_path(current@, dir@) is None,
{
    let dir_chars = chars_of(dir);
    let mut dir_lower: Vec<char> = Vec::new();
    let mut k: usize = 0;
    while k < dir_chars.len()
        invariant
            k <= dir_chars@.len(),
            dir_chars@ == dir@,
            dir_lower@ == ascii_lower(dir@.take(k as int)),
        decreases dir_chars.len() - k,
    {
        dir_lower.push(lower_char(dir_chars[k]));
        assert(dir_lower@ =~= ascii_lower(dir@.take(k + 1)));
        k = k + 1;
    }
    assert(dir@.take(dir@.len() as int) == dir@);
    let mut seg: Vec<char> = Vec::new();
    let mut found = false;
    for c in it: current.chars()
        invariant
            it.seq() == current@,
            dir_lower@ == ascii_lower(dir@),
            path_entries(current@.take(it.index() as int)).len() >= 1,
            seg@ == path_entries(current@.take(it.index() as int)).last(),
            found == exists|j: int| 0 <= j < path_entries(current@.take(it.index() as int)).len() - 1
                && eq_ignore_ascii_case(#[trigger] path_entries(current@.take(it.index() as int))[j], dir@),
    {
        let ghost k = it.index() as int;
        let ghost before = path_entries(current@.take(k));
        assert(current@.take(k + 1).drop_last() == current@.take(k));
        assert(current@.take(k + 1).last() == c);
        let ghost after = path_entries(current@.take(k + 1));
        let ghost old_found = found;
        let ghost old_seg = seg@;
        if c == ';' {
            let m = lower_equals(&seg, &dir_lower);
            found = found || m;
            proof {
                assert(after == before.push(Seq::empty()));
                assert(after.len() - 1 == before.len());
                if found {
                    if old_found {
                        let j = choose|j: int| 0 <= j < before.len() - 1 && eq_ignore_ascii_case(
                            #[trigger] before[j], dir@);
                        assert(after[j] == before[j]);
                    } else {
                        assert(after[before.len() - 1] == old_seg);
                        assert(eq_ignore_ascii_case(after[before.len() - 1], dir@));
                    }
                } else {
                    assert forall|j: int| 0 <= j < after.len() - 1 implies !eq_ignore_ascii_case(
                        #[trigger] after[j], dir@) by {
                        if j < before.len() - 1 {
                            assert(after[j] == before[j]);
                        } else {
                            assert(after[j] == old_seg);
                        }
                    }
                }
            }
            seg = Vec::new();
            assert(seg@ =~= after.last());
        } else {
            seg.push(c);
            proof {
                assert(after == before.update(before.len() - 1, before.last().push(c)));
                assert(after.len() == before.len());
                if found {
                    let j = choose|j: int| 0 <= j < before.len() - 1 && eq_ignore_ascii_case(
                        #[trigger] before[j], dir@);
                    assert(after[j] == before[j]);
                } else {
                    assert forall|j: int| 0 <= j < after.len() - 1 implies !eq_ignore_ascii_case(
                        #[trigger] after[j], dir@) by {
                        assert(after[j] == before[j]);
                    }
                }
            }
            assert(seg@ =~= after.last());
        }
    }
    assert(current@.take(current@.len() as int) == current@);
    let last_matches = lower_equals(&seg, &dir_lower);
    if found || last_matches {
        proof {
            let e = path_entries(current@);
            if last_matches {
                assert(eq_ignore_ascii_case(e[e.len() - 1], dir@));
            }
        }
        return None;
    }
    proof {
        let e = path_entries(current@);
        assert forall|j: int| 0 <= j < e.len() implies !eq_ignore_ascii_case(#[trigger] e[j], dir@) by {
            if j == e.len() - 1 {
                assert(e[j] == seg@);
            }
        }
    }
    if current.unicode_len() == 0 {
        return Some(String::from_str(dir));
    }
    let mut p = String::from_str(dir);
    push_str(&mut p, ";");
    push_str(&mut p, current);
    Some(p)
}

/// A text without `;` is a single entry.
pub proof fn lemma_entries_single(s: Seq<char>)
    requires
        !s.contains(';'),
    ensures
        path_entries(s) == seq![s],
    decreases s.len(),
{
    if s.len() > 0 {
        let init = s.drop_last();
        assert(!init.contains(';')) by {
            if init.contains(';') {
                let j = choose|j: int| 0 <= j < init.len() && init[j] == ';';
                assert(s[j] == ';');
            }
        }
        lemma_entries_single(init);
        assert(s[s.len() - 1] == s.last());
        assert(init.push(s.last()) =~= s);
    } else {
        assert(s =~= Seq::<char>::empty());
    }
}

/// Entries after a separator leave the earlier entries in place.
pub proof fn lemma_entries_after_separator(a: Seq<char>, b: Seq<char>)
    ensures
        path_entries(a + seq![';'] + b).len() >= 2,
        path_entries(a + seq![';'] + b)[0] == path_entries(a)[0],
    decreases b.len(),
{
    lemma_path_entries_nonempty(a);
    if b.len() == 0 {
        let t = a + seq![';'] + b;
        assert(t.drop_last() =~= a);
        assert(t.last() == ';');
    } else {
        let t = a + seq![';'] + b;
        assert(t.drop_last() =~= a + seq![';'] + b.drop_last());
        lemma_entries_after_separator(a, b.drop_last());
    }
}

/// Law: once the directory has been prepended, prepending it again changes
/// nothing (for a directory name without `;`).
pub proof fn law_prepend_idempotent(current: Seq<char>, dir: Seq<char>)
    requires
        !dir.contains(';'),
    ensures
        prepended_path(current, dir) matches Some(p) ==> prepended_path(p, dir) is None,
{
    if let Some(p) = prepended_path(current, dir) {
        lemma_entries_single(dir);
        if current.len() == 0 {
            assert(p == dir);
            assert(eq_ignore_ascii_case(path_entries(p)[0], dir));
        } else {
            assert(p == dir + seq![';'] + current) by {
                reveal_strlit(";");
                assert(";"@ =~= seq![';']);
            }
            lemma_entries_after_separator(dir, current);
            assert(eq_ignore_ascii_case(path_entries(p)[0], dir));
        }
    }
}

/// Checks that a download received the announced number of bytes (when the
/// server announced one).
pub fn check_download_size(label: &str, downloaded: u64, total: u64) -> (r: Result<(), String>)
    ensures
        r is Err <==> (total > 0 && downloaded != total),
        r matches Err(m) ==> m@ == "download "@ + label@ + ": size mismatch (got "@ + dec(downloaded as nat)
            + " expected "@ + dec(total as nat) + ")"@,
{
    if total > 0 && downloaded != total {
        let mut m = String::from_str("download ");
        push_str(&mut m, label);
        push_str(&mut m, ": size mismatch (got ");
        push_decimal(&mut m, downloaded);
        push_str(&mut m, " expected ");
        push_decimal(&mut m, total);
        push_str(&mut m, ")");
        return Err(m);
    }
    Ok(())
}

/// The last `/`- or `\`-separated component of an archive entry name.
pub open spec fn entry_basename(name: Seq<char>) -> Seq<char>
    decreases name.len(),
{
    if name.len() == 0 {
        Seq::empty()
    } else if name.last() == '/' || name.last() == '\\' {
        Seq::empty()
    } else {
        entry_basename(name.drop_last()).push(name.last())
    }
}

/// Law: the base name of an archive entry is its text after the last `/` or
/// `\`, character for character; a name without separators is its own base name.
pub proof fn law_basename_is_last_piece(a: Seq<char>, sep: char, b: Seq<char>)
    requires
        sep == '/' || sep == '\\',
        forall|i: int| 0 <= i < b.len() ==> b[i] != '/' && b[i] != '\\',
    ensures
        entry_basename(a + seq![sep] + b) == b,
        entry_basename(b) == b,
    decreases b.len(),
{
    if b.len() == 0 {
        assert(a + seq![sep] + b =~= (a + seq![sep]));
        assert((a + seq![sep]).last() == sep);
    } else {
        let c = b.last();
        law_basename_is_last_piece(a, sep, b.drop_last());
        assert((a + seq![sep] + b).drop_last() =~= a + seq![sep] + b.drop_last());
        assert((a + seq![sep] + b).last() == c);
        assert(entry_basename(b.drop_last()).push(c) =~= b);
    }
}

/// The last `/`- or `\`-separated component of an archive entry name.
pub fn basename(name: &str) -> (r: String)
    ensures
        r@ == entry_basename(name@),
{
    let mut out = String::new();
    for c in it: name.chars()
        invariant
            it.seq() == name@,
            out@ == entry_basename(name@.take(it.index() as int)),
    {
        let ghost k = it.index() as int;
        assert(name@.take(k + 1).drop_last() == name@.take(k));
        assert(name@.take(k + 1).last() == c);
        if c == '/' || c == '\\' {
            out = String::new();
        } else {
            push_char(&mut out, c);
        }
    }
    assert(name@.take(name@.len() as int) == name@);
    out
}

/// Decides whether an archive entry is extracted: files (not directories) whose
/// base name is one of the wanted library names are written under that base name.
pub fn entry_to_extract(is_dir: bool, name: &str, wanted: &Vec<&str>) -> (r: Option<String>)
    ensures
        is_dir ==> r is None,
        !is_dir ==> match r {
            Some(b) => b@ == entry_basename(name@) && exists|i: int| 0 <= i < wanted@.len() && (#[trigger] wanted@[i])@ == b@,
            None => forall|i: int| 0 <= i < wanted@.len() ==> (#[trigger] wanted@[i])@ != entry_basename(name@),
        },
{
    if is_dir {
        return None;
    }
    let base = basename(name);
    let mut i: usize = 0;
    while i < wanted.len()
        invariant
            i <= wanted@.len(),
            base@ == entry_basename(name@),
            !is_dir,
            forall|j: int| 0 <= j < i ==> (#[trigger] wanted@[j])@ != entry_basename(name@),
        decreases wanted.len() - i,
    {
        if str_equal(wanted[i], base.as_str()) {
            return Some(base);
        }
        i = i + 1;
    }
    None
}

/// The temporary file name of a downloaded archive: its label with spaces
/// replaced by underscores, plus `.zip`.
pub fn archive_temp_name(label: &str) -> (r: String)
    ensures
        r@ == label@.map_values(|c: char| if c == ' ' { '_' } else { c }) + ".zip"@,
{
    let mut out = String::new();
    for c in it: label.chars()
        invariant
            it.seq() == label@,
            out@ == label@.take(it.index() as int).map_values(|c: char| if c == ' ' { '_' } else { c }),
    {
        let ghost k = it.index() as int;
        push_char(&mut out, if c == ' ' { '_' } else { c });
        assert(out@ =~= label@.take(k + 1).map_values(|c: char| if c == ' ' { '_' } else { c }));
    }
    assert(label@.take(label@.len() as int) == label@);
    push_str(&mut out, ".zip");
    out
}

/// The texts of a vector of strings.
pub open spec fn string_texts(v: Seq<String>) -> Seq<Seq<char>> {
    Seq::new(v.len(), |i: int| v[i]@)
}

/// The `;`-separated entries of a search path, in order, empty ones included
/// (what `str::split(';')` yields).
pub fn path_dirs(path_var: &str) -> (r: Vec<String>)
    ensures
        string_texts(r@) == path_entries(path_var@),
{
    let mut out: Vec<String> = Vec::new();
    let mut cur = String::new();
    proof {
        assert(path_var@.take(0) =~= Seq::<char>::empty());
        assert(string_texts(out@) =~= path_entries(path_var@.take(0)).drop_last());
    }
    for c in it: path_var.chars()
        invariant
            it.seq() == path_var@,
            string_texts(out@) == path_entries(path_var@.take(it.index() as int)).drop_last(),
            cur@ == path_entries(path_var@.take(it.index() as int)).last(),
    {
        let ghost k = it.index() as int;
        let ghost before = path_entries(path_var@.take(k));
        proof {
            assert(path_var@.take(k + 1).drop_last() =~= path_var@.take(k));
            assert(path_var@.take(k + 1).last() == c);
            lemma_path_entries_nonempty(path_var@.take(k));
        }
        if c == ';' {
            let ghost old_out = out@;
            let ghost piece = cur@;
            out.push(cur);
            cur = String::new();
            assert(string_texts(out@) =~= string_texts(old_out).push(piece));
            assert(before =~= before.drop_last().push(before.last()));
        } else {
            push_char(&mut cur, c);
            let ghost next = path_entries(path_var@.take(k + 1));
            assert(next.drop_last() =~= before.drop_last());
        }
    }
    proof {
        assert(path_var@.take(path_var@.len() as int) =~= path_var@);
        lemma_path_entries_nonempty(path_var@);
    }
    let ghost old_out = out@;
    let ghost piece = cur@;
    let ghost all = path_entries(path_var@);
    out.push(cur);
    assert(string_texts(out@) =~= string_texts(old_out).push(piece));
    assert(all =~= all.drop_last().push(all.last()));
    out
}

} // verus!
