use semantic_image_browser::search::{is_blank_query, plan_search, SearchPlan};
use semantic_image_browser::scan::ScanProgress;
use semantic_image_browser::scan::{
    build_records, is_image_extension, modified_times_map, paths_to_remove, plan_scan, ScanResult,
    ScannedFile,
};

fn file(path: &str, modified_at: i64) -> ScannedFile {
    ScannedFile {
        path: path.to_string(),
        file_type: "jpg".to_string(),
        file_size: 10,
        created_at: 1,
        modified_at,
    }
}

#[test]
fn scan_plan_classifies_new_updated_and_unchanged() {
    let files = vec![file("/a/new.jpg", 5), file("/a/newer.jpg", 20), file("/a/same.jpg", 7), file("/a/older.jpg", 3)];
    let db = vec![
        ("/a/newer.jpg".to_string(), 10),
        ("/a/same.jpg".to_string(), 7),
        ("/a/older.jpg".to_string(), 9),
        ("/gone.jpg".to_string(), 1),
    ];
    let plan = plan_scan(files, &db);
    assert_eq!(plan.result.images_found, 4);
    assert_eq!(plan.result.images_added, 1);
    assert_eq!(plan.result.images_updated, 1);
    assert_eq!(plan.result.images_removed, 0);
    assert!(plan.result.errors.is_empty());
    assert_eq!(plan.seen_paths, vec!["/a/new.jpg", "/a/newer.jpg", "/a/same.jpg", "/a/older.jpg"]);
    let processed: Vec<&str> = plan.to_process.iter().map(|f| f.path.as_str()).collect();
    assert_eq!(processed, vec!["/a/new.jpg", "/a/newer.jpg"]);
}

#[test]
fn later_database_rows_win() {
    let rows = vec![("p".to_string(), 1), ("q".to_string(), 2), ("p".to_string(), 30)];
    let map = modified_times_map(&rows);
    assert_eq!(map.get("p"), Some(&30));
    assert_eq!(map.get("q"), Some(&2));
    assert_eq!(map.get("r"), None);
}

#[test]
fn rescan_after_upsert_finds_nothing() {
    let files = vec![file("x.png", 5), file("y.png", 8), file("z.png", 2)];
    let mut db = vec![("y.png".to_string(), 4), ("z.png".to_string(), 2)];
    let plan = plan_scan(files, &db);
    let again: Vec<ScannedFile> = plan.seen_paths.iter().zip([5, 8, 2]).map(|(p, m)| file(p, m)).collect();
    for f in &plan.to_process {
        db.push((f.path.clone(), f.modified_at));
    }
    let second = plan_scan(again, &db);
    assert!(second.to_process.is_empty());
    assert_eq!(second.result.images_added + second.result.images_updated, 0);
}

#[test]
fn records_pair_files_with_embeddings_and_model_id() {
    let files = vec![file("a", 1), file("b", 2), file("c", 3)];
    let embeddings = vec![Some(vec![1.0f32, 0.0]), None];
    let records = build_records(files, embeddings, Some("model-x"));
    assert_eq!(records.len(), 3);
    assert_eq!(records[0].path, "a");
    assert_eq!(records[0].visual_embedding, Some(vec![1.0f32, 0.0]));
    assert_eq!(records[0].model_id.as_deref(), Some("model-x"));
    assert_eq!(records[1].visual_embedding, None);
    assert_eq!(records[1].model_id, None);
    assert_eq!(records[2].visual_embedding, None);
    assert_eq!(records[2].modified_at, 3);
    let no_model = build_records(vec![file("d", 4)], vec![Some(7u8)], None);
    assert_eq!(no_model[0].visual_embedding, Some(7));
    assert_eq!(no_model[0].model_id, None);
}

#[test]
fn vanished_paths_are_removed() {
    let db = vec!["/a".to_string(), "/b".to_string(), "/c".to_string(), "/b".to_string()];
    let seen = vec!["/b".to_string(), "/d".to_string()];
    assert_eq!(paths_to_remove(db, &seen), vec!["/a", "/c"]);
    assert!(paths_to_remove(vec![], &seen).is_empty());
}

#[test]
fn totals_accumulate_across_directories() {
    let mut total = ScanResult { images_found: 1, images_added: 1, images_updated: 0, images_removed: 0, errors: vec!["e1".to_string()] };
    let other = ScanResult { images_found: 5, images_added: 2, images_updated: 3, images_removed: 9, errors: vec!["e2".to_string()] };
    total.absorb(other);
    assert_eq!(total.images_found, 6);
    assert_eq!(total.images_added, 3);
    assert_eq!(total.images_updated, 3);
    assert_eq!(total.images_removed, 0);
    assert_eq!(total.errors, vec!["e1", "e2"]);
}

#[test]
fn image_extensions_ignore_case() {
    for ext in ["jpg", "JPEG", "Jfif", "png", "GIF", "webp", "bmp", "TIFF", "tif", "avif"] {
        assert!(is_image_extension(ext), "{}", ext);
    }
    for ext in ["", "txt", "jpgx", "heic", "mp4", "J\u{130}F"] {
        assert!(!is_image_extension(ext), "{}", ext);
    }
}

#[test]
fn progress_counters() {
    let mut p = ScanProgress::new();
    assert_eq!(p.phase, "scanning");
    let r = p.set_total(10);
    assert_eq!((r.current, r.total), (0, 10));
    p.increment();
    let r = p.increment_by(4);
    assert_eq!((r.phase.as_str(), r.current, r.total), ("scanning", 5, 10));
    p.set_phase("removing");
    assert_eq!((p.current, p.total), (0, 0));
    p.current = usize::MAX;
    assert_eq!(p.increment().current, 0);
}

#[test]
fn search_plans() {
    assert!(is_blank_query(""));
    assert!(is_blank_query(" \t\n\u{3000}"));
    assert!(!is_blank_query("  cat "));
    assert!(matches!(plan_search::<u8>("   ", Some(1)), SearchPlan::ListAll));
    assert!(matches!(plan_search("dog", Some(7u8)), SearchPlan::Vector(7)));
    assert!(matches!(plan_search::<u8>("dog", None), SearchPlan::Filename));
}
