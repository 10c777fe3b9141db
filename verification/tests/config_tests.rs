use semantic_image_browser::benchmark::Backend;
use semantic_image_browser::config::{validate_directory, AppConfig};
use semantic_image_browser::inference::inference_config;

#[test]
fn default_config() {
    let c = AppConfig::default();
    assert!(c.watched_directories.is_empty());
    assert!(c.runtime_type.is_none() && c.model_dir.is_none());
    assert!(!c.debug_mode && !c.benchmarking);
}

#[test]
fn watched_directories() {
    let mut c = AppConfig::default();
    assert!(c.add_watched_directory("/a".to_string()));
    assert!(c.add_watched_directory("/b".to_string()));
    assert!(!c.add_watched_directory("/a".to_string()));
    assert_eq!(c.watched_directories, vec!["/a", "/b"]);
    assert!(c.is_watched("/b"));
    c.remove_watched_directory("/a");
    assert_eq!(c.watched_directories, vec!["/b"]);
    assert!(!c.is_watched("/a"));
    c.remove_watched_directory("/missing");
    assert_eq!(c.watched_directories, vec!["/b"]);
}

#[test]
fn inference_configs() {
    let cuda = inference_config(Backend::Cuda, Some(16));
    assert_eq!((cuda.model_instances, cuda.batch_size, cuda.pipeline), (1, 32, true));
    let coreml = inference_config(Backend::CoreMl, None);
    assert_eq!((coreml.model_instances, coreml.batch_size, coreml.pipeline), (2, 1, true));
    let cpu = inference_config(Backend::Cpu, Some(16));
    assert_eq!((cpu.model_instances, cpu.batch_size, cpu.pipeline), (4, 1, false));
    assert_eq!(inference_config(Backend::Cpu, Some(3)).model_instances, 3);
    assert_eq!(inference_config(Backend::Cpu, None).model_instances, 2);
}

#[test]
fn test_validate_directory_nonexistent() {
    let path = "/this/path/definitely/does/not/exist/12345";
    let p = std::path::Path::new(path);
    let result = validate_directory(path, p.exists(), p.is_dir());
    assert!(result.is_err());
    assert!(result.unwrap_err().contains("does not exist"));
}

#[test]
fn validate_directory_outcomes() {
    assert_eq!(validate_directory("/photos", true, true), Ok(()));
    assert_eq!(validate_directory("/photos/a.jpg", true, false), Err("Path is not a directory: /photos/a.jpg".to_string()));
    assert_eq!(validate_directory("/nope", false, false), Err("Directory does not exist: /nope".to_string()));
}
