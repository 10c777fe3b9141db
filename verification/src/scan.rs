//! The decisions of a directory scan: which discovered images are new or changed
//! relative to the database, which database rows belong to vanished files, and the
//! records written back after processing.

use vstd::prelude::*;
use vstd::hash_map::StringHashMap;
use vstd::hash_set::StringHashSet;
use crate::text::{ascii_lowercase_chars, ascii_lower, chars_equal};

verus! {

/// A file found by the directory walk. Times are milliseconds since the Unix epoch.
pub struct ScannedFile {
    pub path: String,
    pub file_type: String,
    pub file_size: u64,
    pub created_at: i64,
    pub modified_at: i64,
}

/// Totals of one scan, as reported to the user.
pub struct ScanResult {
    pub images_found: u32,
    pub images_added: u32,
    pub images_updated: u32,
    pub images_removed: u32,
    pub errors: Vec<String>,
}

/// The outcome of comparing a directory listing with the database.
pub struct ScanPlan {
    pub result: ScanResult,
    /// Paths of every file in the listing, in listing order.
    pub seen_paths: Vec<String>,
    /// Files that are new or newer than their database row, in listing order.
    pub to_process: Vec<ScannedFile>,
}

/// A row to upsert into the image table. `E` is the embedding vector type.
pub struct ImageRecord<E> {
    pub path: String,
    pub file_type: String,
    pub file_size: u64,
    pub created_at: i64,
    pub modified_at: i64,
    pub visual_embedding: Option<E>,
    pub model_id: Option<String>,
}

/// The path -> modified-time map that a sequence of database rows builds when
/// inserted in order (a later row for the same path wins).
pub open spec fn times_map(rows: Seq<(String, i64)>) -> Map<Seq<char>, i64>
    decreases rows.len(),
{
    if rows.len() == 0 {
        Map::empty()
    } else {
        times_map(rows.drop_last()).insert(rows.last().0@, rows.last().1)
    }
}

/// The file has no database row.
pub open spec fn is_new(f: ScannedFile, db: Map<Seq<char>, i64>) -> bool {
    !db.contains_key(f.path@)
}

/// The file has a database row older than the file.
pub open spec fn is_updated(f: ScannedFile, db: Map<Seq<char>, i64>) -> bool {
    db.contains_key(f.path@) && db[f.path@] < f.modified_at
}

/// The file has to be (re)processed: it is new or updated.
pub open spec fn needs_processing(f: ScannedFile, db: Map<Seq<char>, i64>) -> bool {
    is_new(f, db) || is_updated(f, db)
}

/// Number of new files in a listing.
pub open spec fn count_new(files: Seq<ScannedFile>, db: Map<Seq<char>, i64>) -> nat
    decreases files.len(),
{
    if files.len() == 0 {
        0
    } else {
        count_new(files.drop_last(), db) + if is_new(files.last(), db) { 1nat } else { 0nat }
    }
}

/// Number of updated files in a listing.
pub open spec fn count_updated(files: Seq<ScannedFile>, db: Map<Seq<char>, i64>) -> nat
    decreases files.len(),
{
    if files.len() == 0 {
        0
    } else {
        count_updated(files.drop_last(), db) + if is_updated(files.last(), db) { 1nat } else { 0nat }
    }
}

/// The files of a listing that need processing, in order.
pub open spec fn pending(files: Seq<ScannedFile>, db: Map<Seq<char>, i64>) -> Seq<ScannedFile> {
    files.filter(|f: ScannedFile| needs_processing(f, db))
}

/// The paths of a listing, in order.
pub open spec fn listing_paths(files: Seq<ScannedFile>) -> Seq<String> {
    files.map_values(|f: ScannedFile| f.path)
}

/// The set of path texts of a sequence of strings.
pub open spec fn path_set(paths: Seq<String>) -> Set<Seq<char>> {
    paths.map_values(|p: String| p@).to_set()
}

/// Adding one string to a sequence adds its text to the path set.
pub proof fn lemma_path_set_push(paths: Seq<String>, p: String)
    ensures
        path_set(paths.push(p)) == path_set(paths).insert(p@),
{
    let a = paths.map_values(|q: String| q@);
    let b = paths.push(p).map_values(|q: String| q@);
    assert(b =~= a.push(p@));
    assert forall|t: Seq<char>| b.contains(t) <==> (a.contains(t) || t == p@) by {
        if b.contains(t) {
            let i = choose|i: int| 0 <= i < b.len() && b[i] == t;
            if i < a.len() {
                assert(a[i] == t);
            }
        }
        if a.contains(t) {
            let i = choose|i: int| 0 <= i < a.len() && a[i] == t;
            assert(b[i] == t);
        }
        if t == p@ {
            assert(b[a.len() as int] == t);
        }
    }
    assert(b.to_set() =~= a.to_set().insert(p@));
}

/// New and updated counts never exceed the listing length.
pub proof fn lemma_counts_bounded(files: Seq<ScannedFile>, db: Map<Seq<char>, i64>)
    ensures
        count_new(files, db) + count_updated(files, db) == pending(files, db).len(),
        pending(files, db).len() <= files.len(),
    decreases files.len(),
{
    reveal_with_fuel(Seq::filter, 1);
    if files.len() > 0 {
        lemma_counts_bounded(files.drop_last(), db);
    }
}

/// A file that has no database row.
pub open spec fn has_no_row(db: Map<Seq<char>, i64>) -> spec_fn(ScannedFile) -> bool {
    |f: ScannedFile| !db.contains_key(f.path@)
}

/// A file whose database row is older than the file.
pub open spec fn has_older_row(db: Map<Seq<char>, i64>) -> spec_fn(ScannedFile) -> bool {
    |f: ScannedFile| db.contains_key(f.path@) && db[f.path@] < f.modified_at
}

/// Law: a scan reports as added exactly the listed files that have no database
/// row, and as updated exactly those whose row is older than the file.
pub proof fn law_counts_by_row(files: Seq<ScannedFile>, db: Map<Seq<char>, i64>)
    ensures
        count_new(files, db) == files.filter(has_no_row(db)).len(),
        count_updated(files, db) == files.filter(has_older_row(db)).len(),
    decreases files.len(),
{
    reveal_with_fuel(Seq::filter, 1);
    if files.len() > 0 {
        law_counts_by_row(files.drop_last(), db);
    }
}

/// Builds the path -> modified-time map from database rows, inserting in order.
pub fn modified_times_map(rows: &Vec<(String, i64)>) -> (m: StringHashMap<i64>)
    ensures
        m@ == times_map(rows@),
{
    let mut m: StringHashMap<i64> = StringHashMap::new();
    let mut i: usize = 0;
    while i < rows.len()
        invariant
            i <= rows@.len(),
            m@ == times_map(rows@.take(i as int)),
        decreases rows.len() - i,
    {
        let key = rows[i].0.clone();
        m.insert(key, rows[i].1);
        assert(rows@.take(i + 1).drop_last() == rows@.take(i as int));
        i = i + 1;
    }
    assert(rows@.take(rows@.len() as int) == rows@);
    m
}

/// Compares a directory listing with the database rows (path, modified time):
/// counts new and updated files, records every listed path, and keeps the files
/// that need processing.
pub fn plan_scan(files: Vec<ScannedFile>, db_rows: &Vec<(String, i64)>) -> (plan: ScanPlan)
    requires
        files@.len() <= u32::MAX,
    ensures
        plan.result.images_found == files@.len(),
        plan.result.images_added == count_new(files@, times_map(db_rows@)),
        plan.result.images_updated == count_updated(files@, times_map(db_rows@)),
        plan.result.images_added == files@.filter(has_no_row(times_map(db_rows@))).len(),
        plan.result.images_updated == files@.filter(has_older_row(times_map(db_rows@))).len(),
        plan.result.images_removed == 0,
        plan.result.errors@.len() == 0,
        plan.seen_paths@ == listing_paths(files@),
        plan.to_process@ == pending(files@, times_map(db_rows@)),
{
    let ghost fs = files@;
    let db = modified_times_map(db_rows);
    let ghost dbm = times_map(db_rows@);
    let n = files.len();
    let mut added: u32 = 0;
    let mut updated: u32 = 0;
    let mut seen: Vec<String> = Vec::new();
    let mut to_process: Vec<ScannedFile> = Vec::new();
    for file in it: files
        invariant
            it.seq() == fs,
            n == fs.len(),
            n <= u32::MAX,
            db@ == dbm,
            added == count_new(fs.take(it.index() as int), dbm),
            updated == count_updated(fs.take(it.index() as int), dbm),
            seen@ == listing_paths(fs.take(it.index() as int)),
            to_process@ == pending(fs.take(it.index() as int), dbm),
    {
        let ghost k = it.index() as int;
        let ghost pre = fs.take(k);
        assert(fs.take(k + 1).drop_last() == pre);
        assert(fs.take(k + 1).last() == file);
        proof {
            lemma_counts_bounded(pre, dbm);
            reveal_with_fuel(Seq::filter, 1);
        }
        seen.push(file.path.clone());
        assert(seen@ =~= listing_paths(fs.take(k + 1)));
        let needs = match db.get(file.path.as_str()) {
            Some(db_modified) => {
                if *db_modified < file.modified_at {
                    updated = updated + 1;
                    true
                } else {
                    false
                }
            },
            None => {
                added = added + 1;
                true
            },
        };
        if needs {
            to_process.push(file);
        }
    }
    assert(fs.take(n as int) == fs);
    proof {
        law_counts_by_row(fs, dbm);
    }
    ScanPlan {
        result: ScanResult {
            images_found: n as u32,
            images_added: added,
            images_updated: updated,
            images_removed: 0,
            errors: Vec::new(),
        },
        seen_paths: seen,
        to_process,
    }
}

/// The record written for the `i`-th processed file: the file's metadata, the
/// `i`-th embedding when there is one, and the model id only beside an embedding.
pub open spec fn record_matches<E>(
    r: ImageRecord<E>,
    f: ScannedFile,
    emb: Option<E>,
    model_id: Option<Seq<char>>,
) -> bool {
    &&& r.path == f.path
    &&& r.file_type == f.file_type
    &&& r.file_size == f.file_size
    &&& r.created_at == f.created_at
    &&& r.modified_at == f.modified_at
    &&& r.visual_embedding == emb
    &&& (r.model_id is Some <==> (emb is Some && model_id is Some))
    &&& (r.model_id matches Some(m) ==> model_id matches Some(id) && m@ == id)
}

/// The embedding that goes with the `i`-th processed file (none past the end).
pub open spec fn embedding_at<E>(embeddings: Seq<Option<E>>, i: int) -> Option<E> {
    if 0 <= i < embeddings.len() {
        embeddings[i]
    } else {
        None
    }
}

/// Pairs each processed file with its embedding (by position) and produces the
/// rows to upsert; the model id is stored only for rows that got an embedding.
pub fn build_records<E>(
    files: Vec<ScannedFile>,
    embeddings: Vec<Option<E>>,
    model_id: Option<&str>,
) -> (records: Vec<ImageRecord<E>>)
    ensures
        records@.len() == files@.len(),
        forall|i: int|
            0 <= i < files@.len() ==> record_matches(
                #[trigger] records@[i],
                files@[i],
                embedding_at(embeddings@, i),
                match model_id {
                    Some(m) => Some(m@),
                    None => None,
                },
            ),
{
    let ghost es = embeddings@;
    let ghost fs = files@;
    let ghost mid: Option<Seq<char>> = match model_id {
        Some(m) => Some(m@),
        None => None,
    };
    // Reverse the embeddings so that popping yields them front to back.
    let mut emb = embeddings;
    let mut reversed: Vec<Option<E>> = Vec::new();
    while emb.len() > 0
        invariant
            emb@.len() + reversed@.len() == es.len(),
            emb@ == es.take(emb@.len() as int),
            forall|j: int| 0 <= j < reversed@.len() ==> #[trigger] reversed@[j] == es[es.len() - 1 - j],
        decreases emb.len(),
    {
        let ghost before = emb@;
        let x = emb.pop().unwrap();
        assert(emb@ == before.drop_last());
        assert(es.take(emb@.len() as int) == before.drop_last());
        reversed.push(x);
    }
    let mut records: Vec<ImageRecord<E>> = Vec::new();
    for file in it: files
        invariant
            it.seq() == fs,
            mid == match model_id {
                Some(m) => Some(m@),
                None => None,
            },
            records@.len() == it.index(),
            reversed@.len() == if it.index() < es.len() { es.len() - it.index() } else { 0 },
            forall|j: int| 0 <= j < reversed@.len() ==> #[trigger] reversed@[j] == es[es.len() - 1 - j],
            forall|i: int| 0 <= i < it.index() ==> record_matches(
                #[trigger] records@[i], fs[i], embedding_at(es, i), mid),
    {
        let ghost k = it.index() as int;
        let ghost before = reversed@;
        let e: Option<E> = match reversed.pop() {
            Some(x) => x,
            None => None,
        };
        assert(e == embedding_at(es, k)) by {
            if k < es.len() {
                assert(before.len() == es.len() - k);
                assert(before[before.len() - 1] == es[es.len() - 1 - (before.len() - 1)]);
            }
        }
        assert forall|j: int| 0 <= j < reversed@.len() implies #[trigger] reversed@[j] == es[es.len() - 1 - j] by {
            assert(reversed@[j] == before[j]);
        }
        let m: Option<String> = if e.is_some() {
            match model_id {
                Some(id) => Some(String::from_str(id)),
                None => None,
            }
        } else {
            None
        };
        assert(m is Some <==> (e is Some && mid is Some));
        assert(m matches Some(mm) ==> mid matches Some(id) && mm@ == id);
        assert(file == fs[k]);
        records.push(ImageRecord {
            path: file.path,
            file_type: file.file_type,
            file_size: file.file_size,
            created_at: file.created_at,
            modified_at: file.modified_at,
            visual_embedding: e,
            model_id: m,
        });
        assert(record_matches(records@[k], fs[k], embedding_at(es, k), mid));
    }
    records
}

/// Database paths that no scanned directory listed any more, in database order.
pub open spec fn vanished(db_paths: Seq<String>, seen: Seq<String>) -> Seq<String> {
    db_paths.filter(|p: String| !path_set(seen).contains(p@))
}

/// The rows to delete after a full rescan: the database paths that were not seen.
pub fn paths_to_remove(db_paths: Vec<String>, seen: &Vec<String>) -> (r: Vec<String>)
    ensures
        r@ == vanished(db_paths@, seen@),
{
    let mut set = StringHashSet::new();
    let mut i: usize = 0;
    while i < seen.len()
        invariant
            i <= seen@.len(),
            set@ == path_set(seen@.take(i as int)),
        decreases seen.len() - i,
    {
        set.insert(seen[i].clone());
        proof {
            assert(seen@.take(i + 1) == seen@.take(i as int).push(seen@[i as int]));
            lemma_path_set_push(seen@.take(i as int), seen@[i as int]);
        }
        i = i + 1;
    }
    assert(seen@.take(seen@.len() as int) == seen@);
    let ghost ds = db_paths@;
    let mut out: Vec<String> = Vec::new();
    for p in it: db_paths
        invariant
            it.seq() == ds,
            set@ == path_set(seen@),
            out@ == vanished(ds.take(it.index() as int), seen@),
    {
        let ghost k = it.index() as int;
        assert(ds.take(k + 1).drop_last() == ds.take(k));
        assert(ds.take(k + 1).last() == p);
        proof {
            reveal_with_fuel(Seq::filter, 1);
        }
        if !set.contains(p.as_str()) {
            out.push(p);
        }
    }
    assert(ds.take(ds.len() as int) == ds);
    out
}

impl ScanResult {
    /// Adds another directory's totals into these running totals (the removed
    /// count is left alone; it is set once after all directories are scanned).
    pub fn absorb(&mut self, other: ScanResult)
        requires
            old(self).images_found + other.images_found <= u32::MAX,
            old(self).images_added + other.images_added <= u32::MAX,
            old(self).images_updated + other.images_updated <= u32::MAX,
        ensures
            final(self).images_found == old(self).images_found + other.images_found,
            final(self).images_added == old(self).images_added + other.images_added,
            final(self).images_updated == old(self).images_updated + other.images_updated,
            final(self).images_removed == old(self).images_removed,
            final(self).errors@ == old(self).errors@ + other.errors@,
    {
        self.images_found = self.images_found + other.images_found;
        self.images_added = self.images_added + other.images_added;
        self.images_updated = self.images_updated + other.images_updated;
        let mut errs = other.errors;
        self.errors.append(&mut errs);
    }
}

/// The extensions that the scanner treats as images (compared in lowercase).
pub open spec fn is_image_extension_text(t: Seq<char>) -> bool {
    ||| t == "jpg"@
    ||| t == "jpeg"@
    ||| t == "jfif"@
    ||| t == "png"@
    ||| t == "gif"@
    ||| t == "webp"@
    ||| t == "bmp"@
    ||| t == "tiff"@
    ||| t == "tif"@
    ||| t == "avif"@
}

/// Whether a file extension names a supported image format, ignoring ASCII case.
pub fn is_image_extension(ext: &str) -> (r: bool)
    ensures
        r == is_image_extension_text(ascii_lower(ext@)),
{
    let lower = ascii_lowercase_chars(ext);
    chars_equal(&lower, "jpg") || chars_equal(&lower, "jpeg") || chars_equal(&lower, "jfif")
        || chars_equal(&lower, "png") || chars_equal(&lower, "gif") || chars_equal(&lower, "webp")
        || chars_equal(&lower, "bmp") || chars_equal(&lower, "tiff") || chars_equal(&lower, "tif")
        || chars_equal(&lower, "avif")
}

/// No two files of a listing share a path.
pub open spec fn unique_paths(files: Seq<ScannedFile>) -> bool {
    forall|i: int, j: int|
        0 <= i < files.len() && 0 <= j < files.len() && i != j ==> #[trigger] files[i].path@
            != #[trigger] files[j].path@
}

/// The database rows that upserting the processed files adds: each file's path
/// with its modified time.
pub open spec fn upserted_rows(processed: Seq<ScannedFile>) -> Seq<(String, i64)> {
    processed.map_values(|f: ScannedFile| (f.path, f.modified_at))
}

/// Law: a scan reports as added plus updated exactly the files it processes.
pub proof fn law_scan_counts(files: Seq<ScannedFile>, db_rows: Seq<(String, i64)>)
    ensures
        count_new(files, times_map(db_rows)) + count_updated(files, times_map(db_rows))
            == pending(files, times_map(db_rows)).len(),
{
    lemma_counts_bounded(files, times_map(db_rows));
}

/// Law: a file is processed if and only if it is new or newer than its row; in
/// particular a file whose row is at least as recent is left alone.
pub proof fn law_pending_exact(files: Seq<ScannedFile>, db_rows: Seq<(String, i64)>)
    ensures
        forall|i: int|
            0 <= i < files.len() ==> (pending(files, times_map(db_rows)).contains(
                #[trigger] files[i],
            ) <==> needs_processing(files[i], times_map(db_rows))),
{
    let db = times_map(db_rows);
    let pred = |f: ScannedFile| needs_processing(f, db);
    assert forall|i: int| 0 <= i < files.len() implies (pending(files, db).contains(
        #[trigger] files[i],
    ) <==> needs_processing(files[i], db)) by {
        if needs_processing(files[i], db) {
            files.lemma_filter_contains(pred, i);
        }
        if pending(files, db).contains(files[i]) {
            let j = choose|j: int| 0 <= j < files.filter(pred).len() && files.filter(pred)[j] == files[i];
            files.lemma_filter_pred(pred, j);
        }
    }
}

/// Building the map from two row sequences equals the union, the later rows winning.
pub proof fn lemma_times_map_concat(a: Seq<(String, i64)>, b: Seq<(String, i64)>)
    ensures
        times_map(a + b) == times_map(a).union_prefer_right(times_map(b)),
    decreases b.len(),
{
    if b.len() == 0 {
        assert(a + b =~= a);
        assert(times_map(a).union_prefer_right(times_map(b)) =~= times_map(a));
    } else {
        lemma_times_map_concat(a, b.drop_last());
        assert((a + b).drop_last() =~= a + b.drop_last());
        assert((a + b).last() == b.last());
        assert(times_map(a + b) =~= times_map(a).union_prefer_right(times_map(b)));
    }
}

/// A key of the row map comes from some row carrying that key and value; every
/// row's key is present.
pub proof fn lemma_times_map_source(rows: Seq<(String, i64)>, k: Seq<char>)
    ensures
        times_map(rows).contains_key(k) ==> exists|j: int|
            0 <= j < rows.len() && #[trigger] rows[j].0@ == k && rows[j].1 == times_map(rows)[k],
        (exists|j: int| 0 <= j < rows.len() && #[trigger] rows[j].0@ == k) ==> times_map(rows).contains_key(k),
    decreases rows.len(),
{
    if rows.len() > 0 {
        let init = rows.drop_last();
        lemma_times_map_source(init, k);
        if times_map(rows).contains_key(k) && rows.last().0@ != k {
            let j = choose|j: int| 0 <= j < init.len() && #[trigger] init[j].0@ == k && init[j].1 == times_map(init)[k];
            assert(rows[j] == init[j]);
        }
        if times_map(rows).contains_key(k) && rows.last().0@ == k {
            assert(rows[rows.len() - 1].0@ == k);
        }
        if exists|j: int| 0 <= j < rows.len() && #[trigger] rows[j].0@ == k {
            let j = choose|j: int| 0 <= j < rows.len() && #[trigger] rows[j].0@ == k;
            if j < rows.len() - 1 {
                assert(init[j].0@ == k);
            }
        }
    }
}

/// Law: once the processed files have been written back (each with its modified
/// time), scanning the same listing again finds nothing to process. Listings
/// come from a directory walk, so their paths are distinct.
pub proof fn law_rescan_after_upsert_is_quiet(files: Seq<ScannedFile>, db_rows: Seq<(String, i64)>)
    requires
        unique_paths(files),
    ensures
        pending(
            files,
            times_map(db_rows + upserted_rows(pending(files, times_map(db_rows)))),
        ).len() == 0,
{
    let db = times_map(db_rows);
    let pred = |f: ScannedFile| needs_processing(f, db);
    let p = pending(files, db);
    let r = upserted_rows(p);
    let db2 = times_map(db_rows + r);
    lemma_times_map_concat(db_rows, r);
    law_pending_exact(files, db_rows);
    assert forall|i: int| 0 <= i < files.len() implies !needs_processing(#[trigger] files[i], db2) by {
        let f = files[i];
        let k = f.path@;
        lemma_times_map_source(r, k);
        // Any processed row with this path is the row of `f` itself.
        assert forall|j: int| 0 <= j < r.len() && #[trigger] r[j].0@ == k implies r[j].1 == f.modified_at && p.contains(f) by {
            assert(p.contains(p[j]));
            files.lemma_filter_contains_rev(pred, p[j]);
            let m = choose|m: int| 0 <= m < files.len() && files[m] == p[j];
            assert(files[m].path@ == files[i].path@);
            assert(m == i);
        }
        if needs_processing(f, db) {
            assert(p.contains(f));
            let j = choose|j: int| 0 <= j < p.len() && p[j] == f;
            assert(r[j].0@ == k);
            assert(times_map(r).contains_key(k));
            let w = choose|w: int| 0 <= w < r.len() && #[trigger] r[w].0@ == k && r[w].1 == times_map(r)[k];
            assert(db2[k] == f.modified_at);
        } else {
            if times_map(r).contains_key(k) {
                let w = choose|w: int| 0 <= w < r.len() && #[trigger] r[w].0@ == k && r[w].1 == times_map(r)[k];
                assert(p.contains(f));
            }
            assert(db2.contains_key(k) && db2[k] == db[k]);
        }
    }
    let pred2 = |f: ScannedFile| needs_processing(f, db2);
    if pending(files, db2).len() > 0 {
        files.lemma_filter_pred(pred2, 0);
        files.lemma_filter_contains_rev(pred2, pending(files, db2)[0]);
        assert(pending(files, db2).contains(pending(files, db2)[0]));
    }
}

/// Law: after a rescan, a database path is removed exactly when no scanned
/// directory listed it.
pub proof fn law_removed_exactly_unseen(db_paths: Seq<String>, seen: Seq<String>)
    ensures
        forall|i: int|
            0 <= i < vanished(db_paths, seen).len() ==> !path_set(seen).contains(
                #[trigger] vanished(db_paths, seen)[i]@,
            ),
        forall|i: int|
            0 <= i < db_paths.len() && !path_set(seen).contains(#[trigger] db_paths[i]@)
                ==> vanished(db_paths, seen).contains(db_paths[i]),
{
    let pred = |p: String| !path_set(seen).contains(p@);
    assert forall|i: int| 0 <= i < vanished(db_paths, seen).len() implies !path_set(seen).contains(
        #[trigger] vanished(db_paths, seen)[i]@,
    ) by {
        db_paths.lemma_filter_pred(pred, i);
    }
    assert forall|i: int| 0 <= i < db_paths.len() && !path_set(seen).contains(#[trigger] db_paths[i]@)
        implies vanished(db_paths, seen).contains(db_paths[i]) by {
        db_paths.lemma_filter_contains(pred, i);
    }
}

// ── Progress reporting ──────────────────────────────────────────────

/// A progress report sent to the frontend.
pub struct ScanProgressPayload {
    pub phase: String,
    pub current: u64,
    pub total: u64,
}

/// Scan progress: the phase and a counter of processed items out of a total.
/// Counters wrap around on overflow.
pub struct ScanProgress {
    pub phase: String,
    pub total: usize,
    pub current: usize,
}

/// `a + b` modulo the `usize` range.
pub open spec fn wrapping_add_usize(a: usize, b: usize) -> usize {
    if a + b <= usize::MAX { (a + b) as usize } else { (a + b - usize::MAX - 1) as usize }
}

impl ScanProgress {
    /// Progress at the start of a scan: phase `scanning`, nothing counted.
    pub fn new() -> (r: ScanProgress)
        ensures
            r.phase@ == "scanning"@,
            r.total == 0,
            r.current == 0,
    {
        ScanProgress { phase: String::from_str("scanning"), total: 0, current: 0 }
    }

    /// Enters a new phase and resets both counters.
    pub fn set_phase(&mut self, phase: &str)
        ensures
            final(self).phase@ == phase@,
            final(self).current == 0,
            final(self).total == 0,
    {
        self.phase = String::from_str(phase);
        self.current = 0;
        self.total = 0;
    }

    /// Sets the total and restarts the count; returns the report to send.
    pub fn set_total(&mut self, count: usize) -> (r: ScanProgressPayload)
        ensures
            final(self).total == count,
            final(self).current == 0,
            final(self).phase == old(self).phase,
            r.phase@ == final(self).phase@ && r.current == 0 && r.total == count,
    {
        self.total = count;
        self.current = 0;
        self.payload()
    }

    /// Counts one more processed item; returns the report to send.
    pub fn increment(&mut self) -> (r: ScanProgressPayload)
        ensures
            final(self).current == wrapping_add_usize(old(self).current, 1),
            final(self).total == old(self).total,
            final(self).phase == old(self).phase,
            r.phase@ == final(self).phase@ && r.current == final(self).current && r.total == final(self).total,
    {
        self.increment_by(1)
    }

    /// Counts `count` more processed items; returns the report to send.
    pub fn increment_by(&mut self, count: usize) -> (r: ScanProgressPayload)
        ensures
            final(self).current == wrapping_add_usize(old(self).current, count),
            final(self).total == old(self).total,
            final(self).phase == old(self).phase,
            r.phase@ == final(self).phase@ && r.current == final(self).current && r.total == final(self).total,
    {
        if count <= usize::MAX - self.current {
            self.current = self.current + count;
        } else {
            self.current = count - (usize::MAX - self.current) - 1;
        }
        self.payload()
    }

    /// The current report.
    pub fn payload(&self) -> (r: ScanProgressPayload)
        ensures
            r.phase@ == self.phase@,
            r.current == self.current,
            r.total == self.total,
    {
        ScanProgressPayload { phase: self.phase.clone(), current: self.current as u64, total: self.total as u64 }
    }
}

} // verus!
