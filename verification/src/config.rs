//! The application configuration and the watched-directory list.

use vstd::prelude::*;
use crate::text::{push_str, str_equal};

verus! {

/// Application settings, cached in memory and stored as JSON.
pub struct AppConfig {
    pub watched_directories: Vec<String>,
    /// Runtime type: "cpu" or "gpu". Determines which ONNX Runtime to use.
    pub runtime_type: Option<String>,
    /// Path to the model directory.
    pub model_dir: Option<String>,
    /// Enables debug-only UI.
    pub debug_mode: bool,
    /// Enables benchmark CSV logging during scans.
    pub benchmarking: bool,
}

impl Default for AppConfig {
    fn default() -> (r: AppConfig)
        ensures
            r.watched_directories@.len() == 0,
            r.runtime_type is None,
            r.model_dir is None,
            !r.debug_mode,
            !r.benchmarking,
    {
        AppConfig {
            watched_directories: Vec::new(),
            runtime_type: None,
            model_dir: None,
            debug_mode: false,
            benchmarking: false,
        }
    }
}

/// The texts of a list of strings.
pub open spec fn texts(v: Seq<String>) -> Seq<Seq<char>> {
    v.map_values(|s: String| s@)
}

/// No text occurs twice.
pub open spec fn distinct_texts(v: Seq<String>) -> bool {
    forall|i: int, j: int| 0 <= i < v.len() && 0 <= j < v.len() && i != j ==> #[trigger] v[i]@ != #[trigger] v[j]@
}

/// The list after adding `path`: unchanged if already there, else appended.
pub open spec fn with_added(v: Seq<String>, path: String) -> Seq<String> {
    if texts(v).contains(path@) { v } else { v.push(path) }
}

/// `v` without the entries whose text is `t`, order kept.
pub open spec fn without_text(v: Seq<String>, t: Seq<char>) -> Seq<String> {
    v.filter(|s: String| s@ != t)
}

impl AppConfig {
    /// Whether `path` is in the watched-directory list.
    pub fn is_watched(&self, path: &str) -> (r: bool)
        ensures
            r == texts(self.watched_directories@).contains(path@),
    {
        let mut i: usize = 0;
        while i < self.watched_directories.len()
            invariant
                i <= self.watched_directories@.len(),
                forall|j: int| 0 <= j < i ==> #[trigger] self.watched_directories@[j]@ != path@,
            decreases self.watched_directories.len() - i,
        {
            if str_equal(self.watched_directories[i].as_str(), path) {
                assert(texts(self.watched_directories@)[i as int] == path@);
                return true;
            }
            i = i + 1;
        }
        proof {
            if texts(self.watched_directories@).contains(path@) {
                let j = choose|j: int| 0 <= j < texts(self.watched_directories@).len()
                    && texts(self.watched_directories@)[j] == path@;
                assert(self.watched_directories@[j]@ == path@);
            }
        }
        false
    }

    /// Adds a directory to the watched list unless it is already there; returns
    /// whether it was added.
    pub fn add_watched_directory(&mut self, path: String) -> (added: bool)
        ensures
            added == !texts(old(self).watched_directories@).contains(path@),
            final(self).watched_directories@ == with_added(old(self).watched_directories@, path),
            final(self).runtime_type == old(self).runtime_type,
            final(self).model_dir == old(self).model_dir,
            final(self).debug_mode == old(self).debug_mode,
            final(self).benchmarking == old(self).benchmarking,
    {
        if self.is_watched(path.as_str()) {
            return false;
        }
        self.watched_directories.push(path);
        true
    }

    /// Removes every occurrence of a directory from the watched list.
    pub fn remove_watched_directory(&mut self, path: &str)
        ensures
            final(self).watched_directories@ == without_text(old(self).watched_directories@, path@),
            final(self).runtime_type == old(self).runtime_type,
            final(self).model_dir == old(self).model_dir,
            final(self).debug_mode == old(self).debug_mode,
            final(self).benchmarking == old(self).benchmarking,
    {
        let mut old_dirs: Vec<String> = Vec::new();
        std::mem::swap(&mut old_dirs, &mut self.watched_directories);
        let ghost od = old_dirs@;
        let mut kept: Vec<String> = Vec::new();
        for d in it: old_dirs
            invariant
                it.seq() == od,
                kept@ == without_text(od.take(it.index() as int), path@),
        {
            let ghost k = it.index() as int;
            assert(od.take(k + 1).drop_last() == od.take(k));
            assert(od.take(k + 1).last() == d);
            proof {
                reveal_with_fuel(Seq::filter, 1);
            }
            if !str_equal(d.as_str(), path) {
                kept.push(d);
            }
        }
        assert(od.take(od.len() as int) == od);
        self.watched_directories = kept;
    }
}

/// Law: after adding a directory it is watched, and adding it again changes nothing.
pub proof fn law_add_then_watched(dirs: Seq<String>, path: String)
    ensures
        texts(with_added(dirs, path)).contains(path@),
        with_added(with_added(dirs, path), path) == with_added(dirs, path),
{
    if !texts(dirs).contains(path@) {
        assert(texts(dirs.push(path))[dirs.len() as int] == path@);
    }
}

/// Law: after removing a directory it is no longer watched, and every other
/// directory stays, in order.
pub proof fn law_remove_then_unwatched(dirs: Seq<String>, path: Seq<char>)
    ensures
        !texts(without_text(dirs, path)).contains(path),
        forall|i: int| 0 <= i < dirs.len() && #[trigger] dirs[i]@ != path ==> without_text(dirs, path).contains(dirs[i]),
{
    let pred = |s: String| s@ != path;
    let w = without_text(dirs, path);
    if texts(w).contains(path) {
        let j = choose|j: int| 0 <= j < texts(w).len() && texts(w)[j] == path;
        dirs.lemma_filter_pred(pred, j);
    }
    assert forall|i: int| 0 <= i < dirs.len() && #[trigger] dirs[i]@ != path implies w.contains(dirs[i]) by {
        dirs.lemma_filter_contains(pred, i);
    }
}

/// Law: adding a directory keeps the watched list free of duplicates.
pub proof fn law_add_keeps_distinct(dirs: Seq<String>, path: String)
    requires
        distinct_texts(dirs),
        !texts(dirs).contains(path@),
    ensures
        distinct_texts(dirs.push(path)),
{
    let d2 = dirs.push(path);
    assert forall|i: int, j: int| 0 <= i < d2.len() && 0 <= j < d2.len() && i != j implies #[trigger] d2[i]@
        != #[trigger] d2[j]@ by {
        if i == dirs.len() {
            assert(texts(dirs)[j] == dirs[j]@);
        } else if j == dirs.len() {
            assert(texts(dirs)[i] == dirs[i]@);
        }
    }
}

/// Decides whether a path can be watched, from what the file system reports
/// about it: it must exist and be a directory.
pub fn validate_directory(path: &str, exists: bool, is_dir: bool) -> (r: Result<(), String>)
    ensures
        r is Ok <==> exists && is_dir,
        !exists ==> (r matches Err(m) && m@ == "Directory does not exist: "@ + path@),
        exists && !is_dir ==> (r matches Err(m) && m@ == "Path is not a directory: "@ + path@),
{
    if !exists {
        let mut m = String::from_str("Directory does not exist: ");
        push_str(&mut m, path);
        return Err(m);
    }
    if !is_dir {
        let mut m = String::from_str("Path is not a directory: ");
        push_str(&mut m, path);
        return Err(m);
    }
    Ok(())
}

} // verus!
