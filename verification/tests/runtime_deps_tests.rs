use semantic_image_browser::runtime_deps::path_dirs;
use semantic_image_browser::runtime_deps::{
    archive_temp_name, basename, check_download_size, entry_to_extract, prepend_to_path, DownloadProgress,
};

#[test]
fn prepending_search_path() {
    assert_eq!(prepend_to_path("", r"C:\rt").as_deref(), Some(r"C:\rt"));
    assert_eq!(prepend_to_path(r"C:\a;C:\b", r"C:\rt").as_deref(), Some(r"C:\rt;C:\a;C:\b"));
    assert_eq!(prepend_to_path(r"C:\a;c:\RT;C:\b", r"C:\rt"), None);
    assert_eq!(prepend_to_path(r"C:\RT", r"c:\rt"), None);
    assert_eq!(prepend_to_path(r"C:\a;", ""), None);
    assert_eq!(prepend_to_path(r"C:\a", "").as_deref(), Some(r";C:\a"));
}

#[test]
fn download_size_check() {
    assert!(check_download_size("cuBLAS", 10, 0).is_ok());
    assert!(check_download_size("cuBLAS", 10, 10).is_ok());
    assert_eq!(
        check_download_size("cuBLAS", 9, 10).unwrap_err(),
        "download cuBLAS: size mismatch (got 9 expected 10)"
    );
}

#[test]
fn archive_entries() {
    assert_eq!(basename("cuda/bin/cudart64_12.dll"), "cudart64_12.dll");
    assert_eq!(basename(r"cuda\bin\x.dll"), "x.dll");
    assert_eq!(basename("dir/"), "");
    let wanted = vec!["cudart64_12.dll", "cublas64_12.dll"];
    assert_eq!(entry_to_extract(false, "a/bin/cudart64_12.dll", &wanted).as_deref(), Some("cudart64_12.dll"));
    assert_eq!(entry_to_extract(true, "a/bin/cudart64_12.dll", &wanted), None);
    assert_eq!(entry_to_extract(false, "a/bin/readme.txt", &wanted), None);
    assert_eq!(archive_temp_name("CUDA Runtime"), "CUDA_Runtime.zip");
}

#[test]
fn final_progress() {
    let p = DownloadProgress::done();
    assert_eq!(p.phase, "done");
    assert_eq!((p.current_bytes, p.total_bytes), (0, 0));
}

#[test]
fn search_path_entries() {
    assert_eq!(path_dirs("C:\\a;;C:\\b"), vec!["C:\\a", "", "C:\\b"]);
    assert_eq!(path_dirs(""), vec![""]);
    assert_eq!(path_dirs("x;"), vec!["x", ""]);
}
