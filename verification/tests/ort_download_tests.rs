use semantic_image_browser::runtime::{
    cuda_dependencies_found, cuda_dlls, cuda_report_libraries, dependency_library_line, dependency_status_line,
};
use semantic_image_browser::runtime::{
    build_variant, check_cuda_dependencies, get_download_size, ort_status, plan_download, runtime_info,
    selected_runtime_type, Platform, RuntimeType,
};

#[test]
fn test_download_urls() {
    let platform = Platform::WindowsX64;
    let url = platform.download_url(RuntimeType::Cpu);
    assert!(url.is_some());
    assert!(url.unwrap().contains("onnxruntime-win-x64-1.23.2.zip"));

    let cuda_url = platform.download_url(RuntimeType::Cuda);
    assert!(cuda_url.is_some());
    assert!(cuda_url.unwrap().contains("onnxruntime-win-x64-gpu-1.23.2.zip"));

    // DirectML not yet implemented
    let directml_url = platform.download_url(RuntimeType::DirectMl);
    assert!(directml_url.is_none());
}

#[test]
fn test_runtime_type_conversion() {
    assert_eq!(RuntimeType::from_str("cpu"), Some(RuntimeType::Cpu));
    assert_eq!(RuntimeType::from_str("cuda"), Some(RuntimeType::Cuda));
    assert_eq!(RuntimeType::from_str("directml"), Some(RuntimeType::DirectMl));
    // Legacy "gpu" maps to Cuda
    assert_eq!(RuntimeType::from_str("gpu"), Some(RuntimeType::Cuda));
    assert_eq!(RuntimeType::from_str("GPU"), Some(RuntimeType::Cuda));
    assert_eq!(RuntimeType::from_str("invalid"), None);
}

#[test]
fn test_runtime_type_all() {
    let all = RuntimeType::all();
    assert_eq!(all.len(), 3);
    assert!(all.contains(&RuntimeType::Cpu));
    assert!(all.contains(&RuntimeType::DirectMl));
    assert!(all.contains(&RuntimeType::Cuda));
}

#[test]
fn runtime_names_round_trip() {
    for rt in RuntimeType::all() {
        assert_eq!(RuntimeType::from_str(rt.as_str()), Some(rt));
        assert_eq!(RuntimeType::from_str(&rt.as_str().to_uppercase()), Some(rt));
    }
    assert_eq!(RuntimeType::Cuda.display_name(), "GPU (CUDA)");
    assert_eq!(RuntimeType::DirectMl.as_str(), "directml");
}

#[test]
fn target_names_map_to_platforms() {
    assert_eq!(Platform::from_target("linux", "x86_64"), Some(Platform::LinuxX64));
    assert_eq!(Platform::from_target("macos", "aarch64"), Some(Platform::MacOsArm64));
    assert_eq!(Platform::from_target("windows", "aarch64"), Some(Platform::WindowsArm64));
    assert_eq!(Platform::from_target("freebsd", "x86_64"), None);
    assert_eq!(Platform::from_target("linux", "riscv64"), None);
}

#[test]
fn archive_names_and_inner_dirs_agree() {
    let platforms = [
        Platform::WindowsX64,
        Platform::WindowsArm64,
        Platform::MacOsX64,
        Platform::MacOsArm64,
        Platform::MacOsUniversal,
        Platform::LinuxX64,
        Platform::LinuxArm64,
    ];
    for p in platforms {
        for rt in RuntimeType::all() {
            let name = p.archive_filename(rt);
            let inner = p.archive_inner_dir(rt);
            let url = p.download_url(rt);
            assert_eq!(name.is_some(), inner.is_some());
            assert_eq!(name.is_some(), url.is_some());
            if let (Some(name), Some(inner), Some(url)) = (name, inner, url) {
                let ext = if p.uses_zip() { ".zip" } else { ".tgz" };
                assert_eq!(name, format!("{}{}", inner, ext));
                assert!(url.ends_with(&format!("/v1.23.2/{}", name)));
            }
        }
        assert!(p.download_url(RuntimeType::Cpu).is_some());
    }
    assert_eq!(
        Platform::LinuxArm64.archive_filename(RuntimeType::Cpu).unwrap(),
        "onnxruntime-linux-aarch64-1.23.2.tgz"
    );
    assert_eq!(
        Platform::MacOsUniversal.archive_inner_dir(RuntimeType::Cpu).unwrap(),
        "onnxruntime-osx-universal2-1.23.2"
    );
    assert_eq!(
        Platform::LinuxX64.download_url(RuntimeType::Cuda).unwrap(),
        "https://github.com/microsoft/onnxruntime/releases/download/v1.23.2/onnxruntime-linux-x64-gpu-1.23.2.tgz"
    );
}

#[test]
fn platform_properties() {
    assert!(Platform::WindowsX64.cuda_available());
    assert!(Platform::LinuxX64.cuda_available());
    assert!(!Platform::MacOsArm64.cuda_available());
    assert!(Platform::WindowsX64.directml_available());
    assert!(!Platform::WindowsArm64.directml_available());
    assert_eq!(Platform::MacOsX64.library_filename(), "libonnxruntime.dylib");
    assert_eq!(Platform::WindowsArm64.library_filename(), "onnxruntime.dll");
    assert_eq!(Platform::LinuxArm64.library_filename(), "libonnxruntime.so");
    assert!(Platform::WindowsArm64.uses_zip());
    assert!(!Platform::LinuxX64.uses_zip());
    assert_eq!(Platform::MacOsUniversal.name(), "MacOsUniversal");
}

#[test]
fn download_sizes() {
    assert_eq!(get_download_size(Platform::WindowsX64, RuntimeType::Cuda), Some(326_000_000));
    assert_eq!(get_download_size(Platform::LinuxArm64, RuntimeType::Cpu), Some(7_000_000));
    assert_eq!(get_download_size(Platform::WindowsX64, RuntimeType::DirectMl), None);
    assert_eq!(get_download_size(Platform::MacOsArm64, RuntimeType::Cuda), None);
}

#[test]
fn cuda_dependency_check_off_windows() {
    let status = check_cuda_dependencies();
    assert!(!status.all_found);
    assert_eq!(status.dependencies.len(), 1);
    assert_eq!(status.dependencies[0].name, "CUDA dependencies");
    assert!(!status.dependencies[0].found);
}

#[test]
fn download_plans_and_refusals() {
    let plan = plan_download(Platform::WindowsX64, RuntimeType::Cuda).ok().unwrap();
    assert_eq!(plan.archive_filename, "onnxruntime-win-x64-gpu-1.23.2.zip");
    assert_eq!(plan.inner_dir, "onnxruntime-win-x64-gpu-1.23.2");
    assert!(plan.uses_zip);
    assert_eq!(plan.library_filename, "onnxruntime.dll");
    assert_eq!(
        plan_download(Platform::MacOsArm64, RuntimeType::Cuda).err().unwrap(),
        "CUDA runtime is not available for this platform"
    );
    assert_eq!(
        plan_download(Platform::WindowsX64, RuntimeType::DirectMl).err().unwrap(),
        "DirectML runtime download is not yet implemented"
    );
    let cpu = plan_download(Platform::LinuxArm64, RuntimeType::Cpu).ok().unwrap();
    assert!(!cpu.uses_zip);
}

#[test]
fn status_report() {
    let info = runtime_info(Platform::MacOsArm64, RuntimeType::Cuda, false, Some(5));
    assert_eq!(info.runtime_type, "cuda");
    assert!(!info.available);
    assert_eq!(info.installed_size, None);
    let cpu = runtime_info(Platform::LinuxX64, RuntimeType::Cpu, true, Some(42));
    assert!(cpu.available && cpu.installed);
    assert_eq!(cpu.installed_size, Some(42));
    assert_eq!(cpu.download_size, Some(8_000_000));
    assert_eq!(selected_runtime_type(Some("GPU")), RuntimeType::Cuda);
    assert_eq!(selected_runtime_type(Some("quantum")), RuntimeType::Cpu);
    assert_eq!(selected_runtime_type(None), RuntimeType::Cpu);
    let status = ort_status(Platform::LinuxX64, Some("cpu".to_string()), None, vec![cpu]);
    assert!(!status.selected_installed);
    assert_eq!(status.platform, "LinuxX64");
    assert_eq!(status.runtimes.len(), 1);
}

#[test]
fn build_variant_labels() {
    assert_eq!(build_variant("windows", "x86_64", true), "Windows x64 (CUDA)");
    assert_eq!(build_variant("macos", "aarch64", false), "macOS ARM64 (CPU)");
    assert_eq!(build_variant("linux", "riscv64", false), "Linux riscv64 (CPU)");
    assert_eq!(build_variant("freebsd", "x86_64", false), "Linux x64 (CPU)");
}

#[test]
fn windows_cuda_dependency_report() {
    let s = semantic_image_browser::runtime::cuda_dependency_status(true, false, true);
    assert!(!s.all_found);
    assert_eq!(s.dependencies.len(), 3);
    assert_eq!(s.dependencies[0].name, "CUDA Toolkit 12.x");
    assert!(s.dependencies[0].found && s.dependencies[0].details.is_none());
    assert_eq!(s.dependencies[1].name, "cuBLAS");
    assert_eq!(s.dependencies[1].details.as_deref(), Some("cublas64_12.dll not found in PATH"));
    assert_eq!(s.dependencies[2].name, "cuDNN 9.x");
    assert!(semantic_image_browser::runtime::cuda_dependency_status(true, true, true).all_found);
}

#[test]
fn cuda_dependencies_from_found_libraries() {
    assert_eq!(cuda_dlls().len(), 6);
    let found = vec!["cudart64_12.dll".to_string(), "cublas64_12.dll".to_string()];
    let s = cuda_dependencies_found(&found);
    assert!(s.dependencies[0].found);
    assert!(!s.dependencies[1].found);
    assert!(!s.dependencies[2].found);
    assert!(!s.all_found);
    let all: Vec<String> = cuda_dlls().into_iter().map(|d| d.to_string()).collect();
    assert!(cuda_dependencies_found(&all).all_found);
}

#[test]
fn dependency_report_lines() {
    assert_eq!(dependency_status_line("/m/model", true), "/m/model");
    assert_eq!(dependency_status_line("/m/model", false), "/m/model (NOT FOUND)");
    assert_eq!(dependency_library_line("/b/x.so", true, Some("/usr/x.so")), "/b/x.so");
    assert_eq!(dependency_library_line("/b/x.so", false, Some("/usr/x.so")), "/usr/x.so (system)");
    assert_eq!(dependency_library_line("/b/x.so", false, None), "/b/x.so (NOT FOUND)");
    assert_eq!(cuda_report_libraries(true, false).len(), 8);
    assert_eq!(cuda_report_libraries(false, true)[2], ("CUDA Runtime", "libcudart.so.12"));
    assert_eq!(cuda_report_libraries(false, false).len(), 2);
}

#[test]
fn runtime_names_ignore_case() {
    assert_eq!(RuntimeType::from_str("DirectML"), Some(RuntimeType::DirectMl));
    assert_eq!(RuntimeType::from_str("CuDa"), RuntimeType::from_str("cuda"));
}
