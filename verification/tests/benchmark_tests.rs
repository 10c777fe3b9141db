use semantic_image_browser::benchmark::{
    backend_type, escape_csv, local_now_filename, now_iso, Backend, BenchmarkState, CSV_HEADER,
};

#[test]
fn iso_timestamps() {
    assert_eq!(now_iso(0), "1970-01-01 00:00:00");
    assert_eq!(now_iso(951_782_400), "2000-02-29 00:00:00");
    assert_eq!(now_iso(1_709_251_199), "2024-02-29 23:59:59");
    assert_eq!(now_iso(1_735_689_600), "2025-01-01 00:00:00");
    assert_eq!(now_iso(4_107_542_400), "2100-03-01 00:00:00");
}

#[test]
fn filename_timestamps() {
    assert_eq!(local_now_filename(0), "19700101-000000");
    assert_eq!(local_now_filename(1_700_000_000), "20231114-221320");
}

#[test]
fn csv_fields() {
    assert_eq!(escape_csv("plain.jpg"), "plain.jpg");
    assert_eq!(escape_csv("a,b.jpg"), "\"a,b.jpg\"");
    assert_eq!(escape_csv("say \"hi\".png"), "\"say \"\"hi\"\".png\"");
    assert_eq!(escape_csv("two\nlines"), "\"two\nlines\"");
    assert_eq!(escape_csv(""), "");
}

#[test]
fn session_files() {
    let mut state = BenchmarkState::new();
    assert_eq!(state.begin_scan_session(Backend::Cpu, "20240101-000000"), None);
    state.set_enabled(true);
    assert_eq!(state.begin_scan_session(Backend::Cpu, "20240101-000000"), None);
    state.init("/data".to_string());
    state.init("/other".to_string());
    assert_eq!(state.output_dir.as_deref(), Some("/data"));
    let name = state.begin_scan_session(Backend::Cuda, "20240101-120000");
    assert_eq!(name.as_deref(), Some("benchmark_cuda_20240101-120000.csv"));
    assert_eq!(state.log_file().as_deref(), Some("benchmark_cuda_20240101-120000.csv"));
    assert!(!state.toggle());
    assert_eq!(state.log_file(), None);
    assert!(state.toggle());
    assert!(state.is_enabled());
    assert_eq!(backend_type(Backend::CoreMl), "coreml");
    assert!(CSV_HEADER.starts_with("timestamp,file,"));
}
