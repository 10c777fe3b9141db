//! ONNX Runtime release selection: runtime kinds, platforms, archive names and
//! URLs, download sizes, the decision of what to download, and the status shown
//! to the user.

use vstd::prelude::*;
use crate::text::{ascii_lower, ascii_lowercase_chars, chars_equal, push_str, str_equal};

verus! {

/// ONNX Runtime version to download.
pub const ORT_VERSION: &'static str = "1.23.2";

/// Base URL for ONNX Runtime releases.
pub const ORT_RELEASE_BASE: &'static str = "https://github.com/microsoft/onnxruntime/releases/download";

/// Runtime type selection.
#[derive(Clone, Copy, Debug, PartialEq, Eq, Structural)]
pub enum RuntimeType {
    Cpu,
    DirectMl,
    Cuda,
}

/// Platform and architecture.
#[derive(Clone, Copy, Debug, PartialEq, Eq, Structural)]
pub enum Platform {
    WindowsX64,
    WindowsArm64,
    MacOsX64,
    MacOsArm64,
    MacOsUniversal,
    LinuxX64,
    LinuxArm64,
}

/// The lowercase name of a runtime type.
pub open spec fn runtime_name(rt: RuntimeType) -> Seq<char> {
    match rt {
        RuntimeType::Cpu => "cpu"@,
        RuntimeType::DirectMl => "directml"@,
        RuntimeType::Cuda => "cuda"@,
    }
}

/// The runtime type named by a lowercase text (`gpu` is the legacy name of CUDA).
pub open spec fn runtime_from_name(t: Seq<char>) -> Option<RuntimeType> {
    if t == "cpu"@ {
        Some(RuntimeType::Cpu)
    } else if t == "directml"@ {
        Some(RuntimeType::DirectMl)
    } else if t == "cuda"@ {
        Some(RuntimeType::Cuda)
    } else if t == "gpu"@ {
        Some(RuntimeType::Cuda)
    } else {
        None
    }
}

/// The human-readable name of a runtime type.
pub open spec fn runtime_display_name(rt: RuntimeType) -> Seq<char> {
    match rt {
        RuntimeType::Cpu => "CPU"@,
        RuntimeType::DirectMl => "GPU (DirectML)"@,
        RuntimeType::Cuda => "GPU (CUDA)"@,
    }
}

impl RuntimeType {
    /// The lowercase name used in configuration and directory names.
    pub fn as_str(&self) -> (r: &'static str)
        ensures
            r@ == runtime_name(*self),
    {
        match self {
            RuntimeType::Cpu => "cpu",
            RuntimeType::DirectMl => "directml",
            RuntimeType::Cuda => "cuda",
        }
    }

    /// Parses a runtime type name, ignoring ASCII case; `gpu` means CUDA.
    pub fn from_str(s: &str) -> (r: Option<RuntimeType>)
        ensures
            r == runtime_from_name(ascii_lower(s@)),
    {
        let lower = ascii_lowercase_chars(s);
        if chars_equal(&lower, "cpu") {
            Some(RuntimeType::Cpu)
        } else if chars_equal(&lower, "directml") {
            Some(RuntimeType::DirectMl)
        } else if chars_equal(&lower, "cuda") {
            Some(RuntimeType::Cuda)
        } else if chars_equal(&lower, "gpu") {
            Some(RuntimeType::Cuda)
        } else {
            None
        }
    }

    /// Every runtime type, in the order shown to the user.
    pub fn all() -> (r: Vec<RuntimeType>)
        ensures
            r@ == seq![RuntimeType::Cpu, RuntimeType::DirectMl, RuntimeType::Cuda],
    {
        let mut v: Vec<RuntimeType> = Vec::new();
        v.push(RuntimeType::Cpu);
        v.push(RuntimeType::DirectMl);
        v.push(RuntimeType::Cuda);
        assert(v@ =~= seq![RuntimeType::Cpu, RuntimeType::DirectMl, RuntimeType::Cuda]);
        v
    }

    /// A human-readable display name.
    pub fn display_name(&self) -> (r: &'static str)
        ensures
            r@ == runtime_display_name(*self),
    {
        match self {
            RuntimeType::Cpu => "CPU",
            RuntimeType::DirectMl => "GPU (DirectML)",
            RuntimeType::Cuda => "GPU (CUDA)",
        }
    }
}

/// The platform for an operating-system name and CPU architecture name as Rust
/// reports them (`std::env::consts::OS` and `ARCH`).
pub open spec fn platform_of(os: Seq<char>, arch: Seq<char>) -> Option<Platform> {
    if os == "windows"@ && arch == "x86_64"@ {
        Some(Platform::WindowsX64)
    } else if os == "windows"@ && arch == "aarch64"@ {
        Some(Platform::WindowsArm64)
    } else if os == "macos"@ && arch == "x86_64"@ {
        Some(Platform::MacOsX64)
    } else if os == "macos"@ && arch == "aarch64"@ {
        Some(Platform::MacOsArm64)
    } else if os == "linux"@ && arch == "x86_64"@ {
        Some(Platform::LinuxX64)
    } else if os == "linux"@ && arch == "aarch64"@ {
        Some(Platform::LinuxArm64)
    } else {
        None
    }
}

/// The release archive's base name (also the directory inside the archive) for a
/// platform and runtime, when the release has one.
pub open spec fn archive_stem(p: Platform, rt: RuntimeType) -> Option<Seq<char>> {
    match (p, rt) {
        (Platform::WindowsX64, RuntimeType::Cpu) => Some("onnxruntime-win-x64-"@ + ORT_VERSION@),
        (Platform::WindowsX64, RuntimeType::Cuda) => Some("onnxruntime-win-x64-gpu-"@ + ORT_VERSION@),
        (Platform::WindowsArm64, RuntimeType::Cpu) => Some("onnxruntime-win-arm64-"@ + ORT_VERSION@),
        (Platform::MacOsX64, RuntimeType::Cpu) => Some("onnxruntime-osx-x86_64-"@ + ORT_VERSION@),
        (Platform::MacOsArm64, RuntimeType::Cpu) => Some("onnxruntime-osx-arm64-"@ + ORT_VERSION@),
        (Platform::MacOsUniversal, RuntimeType::Cpu) => Some("onnxruntime-osx-universal2-"@ + ORT_VERSION@),
        (Platform::LinuxX64, RuntimeType::Cpu) => Some("onnxruntime-linux-x64-"@ + ORT_VERSION@),
        (Platform::LinuxX64, RuntimeType::Cuda) => Some("onnxruntime-linux-x64-gpu-"@ + ORT_VERSION@),
        (Platform::LinuxArm64, RuntimeType::Cpu) => Some("onnxruntime-linux-aarch64-"@ + ORT_VERSION@),
        _ => None,
    }
}

/// Windows releases are zip archives; the others are gzipped tarballs.
pub open spec fn platform_uses_zip(p: Platform) -> bool {
    p == Platform::WindowsX64 || p == Platform::WindowsArm64
}

/// The archive file extension of a platform's releases.
pub open spec fn archive_extension(p: Platform) -> Seq<char> {
    if platform_uses_zip(p) { ".zip"@ } else { ".tgz"@ }
}

/// The release archive's file name.
pub open spec fn archive_name(p: Platform, rt: RuntimeType) -> Option<Seq<char>> {
    match archive_stem(p, rt) {
        Some(stem) => Some(stem + archive_extension(p)),
        None => None,
    }
}

/// The release archive's download URL.
pub open spec fn archive_url(p: Platform, rt: RuntimeType) -> Option<Seq<char>> {
    match archive_name(p, rt) {
        Some(name) => Some(ORT_RELEASE_BASE@ + "/v"@ + ORT_VERSION@ + "/"@ + name),
        None => None,
    }
}

/// The shared-library file name of a platform.
pub open spec fn platform_library_name(p: Platform) -> Seq<char> {
    match p {
        Platform::WindowsX64 | Platform::WindowsArm64 => "onnxruntime.dll"@,
        Platform::MacOsX64 | Platform::MacOsArm64 | Platform::MacOsUniversal => "libonnxruntime.dylib"@,
        Platform::LinuxX64 | Platform::LinuxArm64 => "libonnxruntime.so"@,
    }
}

/// The approximate download size, in bytes, of a release archive.
pub open spec fn approximate_download_size(p: Platform, rt: RuntimeType) -> Option<u64> {
    match (p, rt) {
        (Platform::WindowsX64, RuntimeType::Cpu) => Some(78_000_000),
        (Platform::WindowsX64, RuntimeType::Cuda) => Some(326_000_000),
        (Platform::WindowsArm64, RuntimeType::Cpu) => Some(79_000_000),
        (Platform::MacOsArm64, RuntimeType::Cpu) => Some(10_000_000),
        (Platform::MacOsX64, RuntimeType::Cpu) => Some(12_000_000),
        (Platform::MacOsUniversal, RuntimeType::Cpu) => Some(43_000_000),
        (Platform::LinuxX64, RuntimeType::Cpu) => Some(8_000_000),
        (Platform::LinuxX64, RuntimeType::Cuda) => Some(241_000_000),
        (Platform::LinuxArm64, RuntimeType::Cpu) => Some(7_000_000),
        _ => None,
    }
}

/// `prefix` followed by `ORT_VERSION` and `suffix`.
fn versioned(prefix: &str, suffix: &str) -> (r: String)
    ensures
        r@ == prefix@ + ORT_VERSION@ + suffix@,
{
    let mut s = String::from_str(prefix);
    push_str(&mut s, ORT_VERSION);
    push_str(&mut s, suffix);
    s
}

/// `prefix` followed by `ORT_VERSION`.
fn with_version(prefix: &str) -> (r: String)
    ensures
        r@ == prefix@ + ORT_VERSION@,
{
    let mut s = String::from_str(prefix);
    push_str(&mut s, ORT_VERSION);
    s
}

impl Platform {
    /// The platform for the operating-system and architecture names that Rust
    /// reports for the running program; `None` for unsupported targets.
    pub fn from_target(os: &str, arch: &str) -> (r: Option<Platform>)
        ensures
            r == platform_of(os@, arch@),
    {
        let o = chars_of_str(os);
        let a = chars_of_str(arch);
        let x64 = chars_equal(&a, "x86_64");
        let arm = chars_equal(&a, "aarch64");
        if chars_equal(&o, "windows") {
            if x64 {
                return Some(Platform::WindowsX64);
            } else if arm {
                return Some(Platform::WindowsArm64);
            }
        } else if chars_equal(&o, "macos") {
            if x64 {
                return Some(Platform::MacOsX64);
            } else if arm {
                return Some(Platform::MacOsArm64);
            }
        } else if chars_equal(&o, "linux") {
            if x64 {
                return Some(Platform::LinuxX64);
            } else if arm {
                return Some(Platform::LinuxArm64);
            }
        }
        None
    }

    /// Whether a CUDA build of the runtime exists for this platform.
    pub fn cuda_available(&self) -> (r: bool)
        ensures
            r == (*self == Platform::WindowsX64 || *self == Platform::LinuxX64),
    {
        match self {
            Platform::WindowsX64 | Platform::LinuxX64 => true,
            _ => false,
        }
    }

    /// Whether DirectML applies to this platform.
    pub fn directml_available(&self) -> (r: bool)
        ensures
            r == (*self == Platform::WindowsX64),
    {
        match self {
            Platform::WindowsX64 => true,
            _ => false,
        }
    }

    /// The release archive's file name for this platform and runtime type.
    pub fn archive_filename(&self, runtime_type: RuntimeType) -> (r: Option<String>)
        ensures
            match r {
                Some(s) => archive_name(*self, runtime_type) == Some(s@),
                None => archive_name(*self, runtime_type) is None,
            },
    {
        match (self, runtime_type) {
            (Platform::WindowsX64, RuntimeType::Cpu) => Some(versioned("onnxruntime-win-x64-", ".zip")),
            (Platform::WindowsX64, RuntimeType::Cuda) => Some(versioned("onnxruntime-win-x64-gpu-", ".zip")),
            (Platform::WindowsArm64, RuntimeType::Cpu) => Some(versioned("onnxruntime-win-arm64-", ".zip")),
            (Platform::MacOsX64, RuntimeType::Cpu) => Some(versioned("onnxruntime-osx-x86_64-", ".tgz")),
            (Platform::MacOsArm64, RuntimeType::Cpu) => Some(versioned("onnxruntime-osx-arm64-", ".tgz")),
            (Platform::MacOsUniversal, RuntimeType::Cpu) => Some(versioned("onnxruntime-osx-universal2-", ".tgz")),
            (Platform::LinuxX64, RuntimeType::Cpu) => Some(versioned("onnxruntime-linux-x64-", ".tgz")),
            (Platform::LinuxX64, RuntimeType::Cuda) => Some(versioned("onnxruntime-linux-x64-gpu-", ".tgz")),
            (Platform::LinuxArm64, RuntimeType::Cpu) => Some(versioned("onnxruntime-linux-aarch64-", ".tgz")),
            _ => None,
        }
    }

    /// The download URL of the release archive for this platform and runtime type.
    pub fn download_url(&self, runtime_type: RuntimeType) -> (r: Option<String>)
        ensures
            match r {
                Some(s) => archive_url(*self, runtime_type) == Some(s@),
                None => archive_url(*self, runtime_type) is None,
            },
    {
        let filename = self.archive_filename(runtime_type)?;
        let mut url = String::from_str(ORT_RELEASE_BASE);
        push_str(&mut url, "/v");
        push_str(&mut url, ORT_VERSION);
        push_str(&mut url, "/");
        push_str(&mut url, filename.as_str());
        Some(url)
    }

    /// The directory name inside the release archive.
    pub fn archive_inner_dir(&self, runtime_type: RuntimeType) -> (r: Option<String>)
        ensures
            match r {
                Some(s) => archive_stem(*self, runtime_type) == Some(s@),
                None => archive_stem(*self, runtime_type) is None,
            },
    {
        match (self, runtime_type) {
            (Platform::WindowsX64, RuntimeType::Cpu) => Some(with_version("onnxruntime-win-x64-")),
            (Platform::WindowsX64, RuntimeType::Cuda) => Some(with_version("onnxruntime-win-x64-gpu-")),
            (Platform::WindowsArm64, RuntimeType::Cpu) => Some(with_version("onnxruntime-win-arm64-")),
            (Platform::MacOsX64, RuntimeType::Cpu) => Some(with_version("onnxruntime-osx-x86_64-")),
            (Platform::MacOsArm64, RuntimeType::Cpu) => Some(with_version("onnxruntime-osx-arm64-")),
            (Platform::MacOsUniversal, RuntimeType::Cpu) => Some(with_version("onnxruntime-osx-universal2-")),
            (Platform::LinuxX64, RuntimeType::Cpu) => Some(with_version("onnxruntime-linux-x64-")),
            (Platform::LinuxX64, RuntimeType::Cuda) => Some(with_version("onnxruntime-linux-x64-gpu-")),
            (Platform::LinuxArm64, RuntimeType::Cpu) => Some(with_version("onnxruntime-linux-aarch64-")),
            _ => None,
        }
    }

    /// The runtime's shared-library file name on this platform.
    pub fn library_filename(&self) -> (r: &'static str)
        ensures
            r@ == platform_library_name(*self),
    {
        match self {
            Platform::WindowsX64 | Platform::WindowsArm64 => "onnxruntime.dll",
            Platform::MacOsX64 | Platform::MacOsArm64 | Platform::MacOsUniversal => "libonnxruntime.dylib",
            Platform::LinuxX64 | Platform::LinuxArm64 => "libonnxruntime.so",
        }
    }

    /// Whether this platform's archives are zip files (otherwise gzipped tarballs).
    pub fn uses_zip(&self) -> (r: bool)
        ensures
            r == platform_uses_zip(*self),
    {
        match self {
            Platform::WindowsX64 | Platform::WindowsArm64 => true,
            _ => false,
        }
    }

    /// The variant name, as the status report shows it.
    pub fn name(&self) -> (r: &'static str)
        ensures
            r@ == platform_name(*self),
    {
        match self {
            Platform::WindowsX64 => "WindowsX64",
            Platform::WindowsArm64 => "WindowsArm64",
            Platform::MacOsX64 => "MacOsX64",
            Platform::MacOsArm64 => "MacOsArm64",
            Platform::MacOsUniversal => "MacOsUniversal",
            Platform::LinuxX64 => "LinuxX64",
            Platform::LinuxArm64 => "LinuxArm64",
        }
    }
}

/// The variant name of a platform.
pub open spec fn platform_name(p: Platform) -> Seq<char> {
    match p {
        Platform::WindowsX64 => "WindowsX64"@,
        Platform::WindowsArm64 => "WindowsArm64"@,
        Platform::MacOsX64 => "MacOsX64"@,
        Platform::MacOsArm64 => "MacOsArm64"@,
        Platform::MacOsUniversal => "MacOsUniversal"@,
        Platform::LinuxX64 => "LinuxX64"@,
        Platform::LinuxArm64 => "LinuxArm64"@,
    }
}

/// The characters of a string slice.
fn chars_of_str(s: &str) -> (v: Vec<char>)
    ensures
        v@ == s@,
{
    crate::text::chars_of(s)
}

/// The expected download size in bytes of a release archive, for display.
pub fn get_download_size(platform: Platform, runtime_type: RuntimeType) -> (r: Option<u64>)
    ensures
        r == approximate_download_size(platform, runtime_type),
{
    match (platform, runtime_type) {
        (Platform::WindowsX64, RuntimeType::Cpu) => Some(78_000_000),
        (Platform::WindowsX64, RuntimeType::Cuda) => Some(326_000_000),
        (Platform::WindowsArm64, RuntimeType::Cpu) => Some(79_000_000),
        (Platform::MacOsArm64, RuntimeType::Cpu) => Some(10_000_000),
        (Platform::MacOsX64, RuntimeType::Cpu) => Some(12_000_000),
        (Platform::MacOsUniversal, RuntimeType::Cpu) => Some(43_000_000),
        (Platform::LinuxX64, RuntimeType::Cpu) => Some(8_000_000),
        (Platform::LinuxX64, RuntimeType::Cuda) => Some(241_000_000),
        (Platform::LinuxArm64, RuntimeType::Cpu) => Some(7_000_000),
        _ => None,
    }
}

/// Information about a single runtime type for the frontend.
pub struct RuntimeInfo {
    pub runtime_type: String,
    pub display_name: String,
    pub installed: bool,
    /// Whether this runtime can be downloaded for this platform.
    pub available: bool,
    pub download_size: Option<u64>,
    /// Size on disk, when installed.
    pub installed_size: Option<u64>,
}

/// Information about a CUDA system dependency.
pub struct CudaDependency {
    pub name: String,
    pub found: bool,
    pub details: Option<String>,
}

/// Result of checking CUDA system dependencies.
pub struct CudaDependencyStatus {
    pub all_found: bool,
    pub dependencies: Vec<CudaDependency>,
}

/// ONNX Runtime status for the frontend.
pub struct OrtStatus {
    /// The runtime type selected in the configuration, as written there.
    pub selected_runtime: Option<String>,
    /// Whether the selected runtime's library is installed.
    pub selected_installed: bool,
    /// Path to the selected runtime's library, when installed.
    pub library_path: Option<String>,
    /// One entry per runtime type.
    pub runtimes: Vec<RuntimeInfo>,
    /// The platform's variant name.
    pub platform: String,
}

/// Whether a runtime type can be downloaded on a platform (DirectML downloads are
/// not offered).
pub open spec fn runtime_available(p: Platform, rt: RuntimeType) -> bool {
    match rt {
        RuntimeType::Cpu => true,
        RuntimeType::Cuda => p == Platform::WindowsX64 || p == Platform::LinuxX64,
        RuntimeType::DirectMl => false,
    }
}

/// One dependency entry: its name, whether it was found, and the message shown
/// when it was not.
fn dependency(name: &str, found: bool, missing: &str) -> (r: CudaDependency)
    ensures
        r.name@ == name@,
        r.found == found,
        found ==> r.details is None,
        !found ==> (r.details matches Some(d) && d@ == missing@),
{
    CudaDependency {
        name: String::from_str(name),
        found,
        details: if found { None } else { Some(String::from_str(missing)) },
    }
}

/// `r` is the CUDA dependency report for the three found-flags: entries for the
/// CUDA runtime, cuBLAS and cuDNN, in that order, each naming the library that
/// is reported missing when it was not found.
pub open spec fn cuda_report(r: CudaDependencyStatus, cudart: bool, cublas: bool, cudnn: bool) -> bool {
    &&& r.all_found == (cudart && cublas && cudnn)
    &&& r.dependencies@.len() == 3
    &&& r.dependencies@[0].name@ == "CUDA Toolkit 12.x"@
    &&& r.dependencies@[1].name@ == "cuBLAS"@
    &&& r.dependencies@[2].name@ == "cuDNN 9.x"@
    &&& r.dependencies@[0].found == cudart
    &&& r.dependencies@[1].found == cublas
    &&& r.dependencies@[2].found == cudnn
    &&& cudart ==> r.dependencies@[0].details is None
    &&& cublas ==> r.dependencies@[1].details is None
    &&& cudnn ==> r.dependencies@[2].details is None
    &&& !cudart ==> (r.dependencies@[0].details matches Some(d) && d@ == "cudart64_12.dll not found in PATH"@)
    &&& !cublas ==> (r.dependencies@[1].details matches Some(d) && d@ == "cublas64_12.dll not found in PATH"@)
    &&& !cudnn ==> (r.dependencies@[2].details matches Some(d) && d@ == "cudnn64_9.dll not found in PATH"@)
}

/// The CUDA dependency report on Windows from what the search found: the CUDA
/// runtime (`cudart64_12.dll`), cuBLAS (`cublas64_12.dll`, `cublasLt64_12.dll`)
/// and cuDNN (`cudnn64_9.dll`, `cudnn_ops64_9.dll`, `cudnn_cnn64_9.dll`), each
/// found when all of its libraries are on the search path.
pub fn cuda_dependency_status(cudart: bool, cublas: bool, cudnn: bool) -> (r: CudaDependencyStatus)
    ensures
        cuda_report(r, cudart, cublas, cudnn),
{
    let mut dependencies: Vec<CudaDependency> = Vec::new();
    dependencies.push(dependency("CUDA Toolkit 12.x", cudart, "cudart64_12.dll not found in PATH"));
    dependencies.push(dependency("cuBLAS", cublas, "cublas64_12.dll not found in PATH"));
    dependencies.push(dependency("cuDNN 9.x", cudnn, "cudnn64_9.dll not found in PATH"));
    CudaDependencyStatus { all_found: cudart && cublas && cudnn, dependencies }
}

/// CUDA dependency checking on platforms where it is not implemented: one entry
/// saying so, nothing found.
pub fn check_cuda_dependencies() -> (r: CudaDependencyStatus)
    ensures
        !r.all_found,
        r.dependencies@.len() == 1,
        r.dependencies@[0].name@ == "CUDA dependencies"@,
        !r.dependencies@[0].found,
        r.dependencies@[0].details matches Some(d)
            && d@ == "CUDA dependency checking not implemented for this platform"@,
{
    let mut dependencies: Vec<CudaDependency> = Vec::new();
    dependencies.push(CudaDependency {
        name: String::from_str("CUDA dependencies"),
        found: false,
        details: Some(String::from_str("CUDA dependency checking not implemented for this platform")),
    });
    CudaDependencyStatus { all_found: false, dependencies }
}

/// The status entry of one runtime type. `installed` says whether its library is
/// on disk and `installed_size` is the size of its directory; the size is
/// reported only for an installed runtime.
pub fn runtime_info(
    platform: Platform,
    runtime_type: RuntimeType,
    installed: bool,
    installed_size: Option<u64>,
) -> (r: RuntimeInfo)
    ensures
        r.runtime_type@ == runtime_name(runtime_type),
        r.display_name@ == runtime_display_name(runtime_type),
        r.installed == installed,
        r.available == runtime_available(platform, runtime_type),
        r.download_size == approximate_download_size(platform, runtime_type),
        r.installed_size == if installed { installed_size } else { None },
{
    let available = match runtime_type {
        RuntimeType::Cpu => true,
        RuntimeType::Cuda => platform.cuda_available(),
        RuntimeType::DirectMl => false,
    };
    RuntimeInfo {
        runtime_type: String::from_str(runtime_type.as_str()),
        display_name: String::from_str(runtime_type.display_name()),
        installed,
        available,
        download_size: get_download_size(platform, runtime_type),
        installed_size: if installed { installed_size } else { None },
    }
}

/// The runtime type a configuration value selects: its parsed name, or CPU when
/// absent or unrecognised.
pub fn selected_runtime_type(selected: Option<&str>) -> (r: RuntimeType)
    ensures
        r == match selected {
            Some(s) => match runtime_from_name(ascii_lower(s@)) {
                Some(rt) => rt,
                None => RuntimeType::Cpu,
            },
            None => RuntimeType::Cpu,
        },
{
    match selected {
        Some(s) => match RuntimeType::from_str(s) {
            Some(rt) => rt,
            None => RuntimeType::Cpu,
        },
        None => RuntimeType::Cpu,
    }
}

/// Assembles the status report from the configuration value, the selected
/// runtime's library path (when installed) and the per-runtime entries.
pub fn ort_status(
    platform: Platform,
    selected_runtime: Option<String>,
    library_path: Option<String>,
    runtimes: Vec<RuntimeInfo>,
) -> (r: OrtStatus)
    ensures
        r.selected_runtime == selected_runtime,
        r.selected_installed == library_path is Some,
        r.library_path == library_path,
        r.runtimes == runtimes,
        r.platform@ == platform_name(platform),
{
    let selected_installed = library_path.is_some();
    OrtStatus {
        selected_runtime,
        selected_installed,
        library_path,
        runtimes,
        platform: String::from_str(platform.name()),
    }
}

/// What to fetch and how to unpack it for one runtime installation.
pub struct DownloadPlan {
    pub url: String,
    pub archive_filename: String,
    /// The directory inside the archive whose contents are moved up.
    pub inner_dir: String,
    pub uses_zip: bool,
    pub library_filename: String,
}

/// Why a runtime cannot be downloaded.
pub open spec fn download_refusal(p: Platform, rt: RuntimeType) -> Option<Seq<char>> {
    if rt == RuntimeType::Cuda && !(p == Platform::WindowsX64 || p == Platform::LinuxX64) {
        Some("CUDA runtime is not available for this platform"@)
    } else if rt == RuntimeType::DirectMl {
        Some("DirectML runtime download is not yet implemented"@)
    } else if archive_url(p, rt) is None {
        Some("No download URL for this platform/runtime combination"@)
    } else {
        None
    }
}

/// Decides whether a runtime can be downloaded on a platform and, if so, where
/// from and how its archive is laid out.
pub fn plan_download(platform: Platform, runtime_type: RuntimeType) -> (r: Result<DownloadPlan, String>)
    ensures
        r is Err <==> download_refusal(platform, runtime_type) is Some,
        r matches Err(m) ==> download_refusal(platform, runtime_type) == Some(m@),
        r matches Ok(plan) ==> {
            &&& archive_url(platform, runtime_type) == Some(plan.url@)
            &&& archive_name(platform, runtime_type) == Some(plan.archive_filename@)
            &&& archive_stem(platform, runtime_type) == Some(plan.inner_dir@)
            &&& plan.uses_zip == platform_uses_zip(platform)
            &&& plan.library_filename@ == platform_library_name(platform)
        },
{
    match runtime_type {
        RuntimeType::Cuda => {
            if !platform.cuda_available() {
                return Err(String::from_str("CUDA runtime is not available for this platform"));
            }
        },
        RuntimeType::DirectMl => {
            return Err(String::from_str("DirectML runtime download is not yet implemented"));
        },
        _ => {},
    }
    let url = match platform.download_url(runtime_type) {
        Some(u) => u,
        None => {
            return Err(String::from_str("No download URL for this platform/runtime combination"));
        },
    };
    proof {
        law_archive_names_agree(platform, runtime_type);
    }
    let archive_filename = platform.archive_filename(runtime_type).unwrap();
    let inner_dir = platform.archive_inner_dir(runtime_type).unwrap();
    Ok(DownloadPlan {
        url,
        archive_filename,
        inner_dir,
        uses_zip: platform.uses_zip(),
        library_filename: String::from_str(platform.library_filename()),
    })
}

/// Law: a platform/runtime pair has a download URL exactly when it has an archive
/// name and an inner directory; the archive is the inner directory plus the
/// platform's extension, and the URL ends with the archive name.
pub proof fn law_archive_names_agree(p: Platform, rt: RuntimeType)
    ensures
        archive_url(p, rt) is Some <==> archive_name(p, rt) is Some,
        archive_name(p, rt) is Some <==> archive_stem(p, rt) is Some,
        archive_stem(p, rt) matches Some(stem) ==> archive_name(p, rt) == Some(stem + archive_extension(p)),
        archive_name(p, rt) matches Some(name) ==> archive_url(p, rt) == Some(
            ORT_RELEASE_BASE@ + "/v"@ + ORT_VERSION@ + "/"@ + name,
        ),
{
}

/// Law: naming a runtime type and parsing the name gives the runtime type back.
pub proof fn law_runtime_name_round_trip(rt: RuntimeType)
    ensures
        runtime_from_name(ascii_lower(runtime_name(rt))) == Some(rt),
{
    reveal_strlit("cpu");
    reveal_strlit("directml");
    reveal_strlit("cuda");
    reveal_strlit("gpu");
    let n = runtime_name(rt);
    assert(ascii_lower(n) =~= n);
    assert("cpu"@ != "directml"@ && "cpu"@ != "cuda"@ && "directml"@ != "cuda"@) by {
        assert("cpu"@.len() != "directml"@.len());
        assert("cpu"@.len() != "cuda"@.len());
        assert("directml"@.len() != "cuda"@.len());
    }
}

/// Law: parsing ignores letter case: a name parses as its lowercase does, and it
/// parses at all exactly when its lowercase is `cpu`, `directml`, `cuda` or `gpu`.
pub proof fn law_runtime_parse_ignores_case(s: Seq<char>)
    ensures
        runtime_from_name(ascii_lower(s)) == runtime_from_name(ascii_lower(ascii_lower(s))),
        runtime_from_name(ascii_lower(s)) is Some <==> (ascii_lower(s) == "cpu"@ || ascii_lower(s) == "directml"@
            || ascii_lower(s) == "cuda"@ || ascii_lower(s) == "gpu"@),
{
    assert(ascii_lower(ascii_lower(s)) =~= ascii_lower(s));
}

/// The operating-system tag of release archive names for Rust's OS name.
pub open spec fn release_os_tag(os: Seq<char>) -> Seq<char> {
    if os == "windows"@ {
        "win"@
    } else if os == "macos"@ {
        "osx"@
    } else {
        "linux"@
    }
}

/// The architecture tag of release archive names for Rust's architecture name:
/// x86-64 is `x64` (`x86_64` on macOS); 64-bit ARM is `arm64` (`aarch64` on Linux).
pub open spec fn release_arch_tag(os: Seq<char>, arch: Seq<char>) -> Seq<char> {
    if arch == "x86_64"@ {
        if os == "macos"@ { "x86_64"@ } else { "x64"@ }
    } else {
        if os == "linux"@ { "aarch64"@ } else { "arm64"@ }
    }
}

/// Law: the release a detected target downloads is built for that target: the
/// CPU archive is `onnxruntime-<os>-<arch>-<version>` with the target's own OS and
/// architecture tags, and a CUDA archive, where there is one, is the same with
/// `-gpu` after the architecture.
pub proof fn law_release_matches_target(os: Seq<char>, arch: Seq<char>)
    requires
        platform_of(os, arch) is Some,
    ensures
        archive_stem(platform_of(os, arch).unwrap(), RuntimeType::Cpu) == Some(
            "onnxruntime-"@ + release_os_tag(os) + "-"@ + release_arch_tag(os, arch) + "-"@ + ORT_VERSION@,
        ),
        archive_stem(platform_of(os, arch).unwrap(), RuntimeType::Cuda) matches Some(stem) ==> stem
            == "onnxruntime-"@ + release_os_tag(os) + "-"@ + release_arch_tag(os, arch) + "-gpu-"@ + ORT_VERSION@,
{
    reveal_strlit("windows");
    reveal_strlit("macos");
    reveal_strlit("linux");
    reveal_strlit("x86_64");
    reveal_strlit("aarch64");
    reveal_strlit("onnxruntime-");
    reveal_strlit("-");
    reveal_strlit("-gpu-");
    reveal_strlit("win");
    reveal_strlit("osx");
    reveal_strlit("x64");
    reveal_strlit("arm64");
    reveal_strlit("onnxruntime-win-x64-");
    reveal_strlit("onnxruntime-win-x64-gpu-");
    reveal_strlit("onnxruntime-win-arm64-");
    reveal_strlit("onnxruntime-osx-x86_64-");
    reveal_strlit("onnxruntime-osx-arm64-");
    reveal_strlit("onnxruntime-linux-x64-");
    reveal_strlit("onnxruntime-linux-x64-gpu-");
    reveal_strlit("onnxruntime-linux-aarch64-");
    let v = ORT_VERSION@;
    let ot = release_os_tag(os);
    let at = release_arch_tag(os, arch);
    let p = platform_of(os, arch).unwrap();
    assert("windows"@ != "macos"@ && "windows"@ != "linux"@) by {
        assert("windows"@.len() != "macos"@.len() && "windows"@.len() != "linux"@.len());
    }
    assert("macos"@ != "linux"@) by {
        assert("macos"@[0] != "linux"@[0]);
    }
    assert("x86_64"@ != "aarch64"@) by {
        assert("x86_64"@.len() != "aarch64"@.len());
    }
    assert(ot == (if p == Platform::WindowsX64 || p == Platform::WindowsArm64 { "win"@ } else if p
        == Platform::MacOsX64 || p == Platform::MacOsArm64 { "osx"@ } else { "linux"@ }));
    assert(at == (if p == Platform::WindowsX64 || p == Platform::LinuxX64 { "x64"@ } else if p
        == Platform::MacOsX64 { "x86_64"@ } else if p == Platform::LinuxArm64 { "aarch64"@ } else { "arm64"@ }));
    assert("onnxruntime-"@ + ot + "-"@ + at + "-"@ + v =~= ("onnxruntime-"@ + ot + "-"@ + at + "-"@) + v);
    assert("onnxruntime-"@ + ot + "-"@ + at + "-gpu-"@ + v =~= ("onnxruntime-"@ + ot + "-"@ + at + "-gpu-"@) + v);
    if p == Platform::WindowsX64 {
        assert("onnxruntime-"@ + ot + "-"@ + at + "-"@ =~= "onnxruntime-win-x64-"@);
        assert("onnxruntime-"@ + ot + "-"@ + at + "-gpu-"@ =~= "onnxruntime-win-x64-gpu-"@);
    } else if p == Platform::WindowsArm64 {
        assert("onnxruntime-"@ + ot + "-"@ + at + "-"@ =~= "onnxruntime-win-arm64-"@);
    } else if p == Platform::MacOsX64 {
        assert("onnxruntime-"@ + ot + "-"@ + at + "-"@ =~= "onnxruntime-osx-x86_64-"@);
    } else if p == Platform::MacOsArm64 {
        assert("onnxruntime-"@ + ot + "-"@ + at + "-"@ =~= "onnxruntime-osx-arm64-"@);
    } else if p == Platform::LinuxX64 {
        assert("onnxruntime-"@ + ot + "-"@ + at + "-"@ =~= "onnxruntime-linux-x64-"@);
        assert("onnxruntime-"@ + ot + "-"@ + at + "-gpu-"@ =~= "onnxruntime-linux-x64-gpu-"@);
    } else {
        assert("onnxruntime-"@ + ot + "-"@ + at + "-"@ =~= "onnxruntime-linux-aarch64-"@);
    }
}

/// Law: every platform that offers CUDA has a CUDA release, DirectML never has
/// a release, and every platform has a CPU release.
pub proof fn law_release_coverage(p: Platform)
    ensures
        runtime_available(p, RuntimeType::Cuda) ==> archive_url(p, RuntimeType::Cuda) is Some,
        archive_url(p, RuntimeType::DirectMl) is None,
        archive_url(p, RuntimeType::Cpu) is Some,
        download_refusal(p, RuntimeType::Cpu) is None,
{
}

/// Law: distinct runtime types have distinct names, so their installation
/// directories never collide.
pub proof fn law_runtime_names_distinct(a: RuntimeType, b: RuntimeType)
    ensures
        a != b ==> runtime_name(a) != runtime_name(b),
{
    reveal_strlit("cpu");
    reveal_strlit("directml");
    reveal_strlit("cuda");
    if a != b && runtime_name(a) == runtime_name(b) {
        assert(runtime_name(a).len() == runtime_name(b).len());
        assert(runtime_name(a)[1] == runtime_name(b)[1]);
    }
}

/// The operating-system part of a build label; any system other than Windows
/// and macOS is labelled Linux.
pub open spec fn os_label(os: Seq<char>) -> Seq<char> {
    if os == "windows"@ {
        "Windows"@
    } else if os == "macos"@ {
        "macOS"@
    } else {
        "Linux"@
    }
}

/// The architecture part of a build label; unknown architectures keep Rust's name.
pub open spec fn arch_label(arch: Seq<char>) -> Seq<char> {
    if arch == "x86_64"@ {
        "x64"@
    } else if arch == "aarch64"@ {
        "ARM64"@
    } else {
        arch
    }
}

/// A human-readable label of a build, such as `Windows x64 (CUDA)`.
pub open spec fn build_variant_text(os: Seq<char>, arch: Seq<char>, cuda: bool) -> Seq<char> {
    os_label(os) + " "@ + arch_label(arch) + (if cuda { " (CUDA)"@ } else { " (CPU)"@ })
}

/// The label of a build for the target operating system and architecture
/// (Rust's names for them) and the accelerator it was built with.
pub fn build_variant(os: &str, arch: &str, cuda: bool) -> (r: String)
    ensures
        r@ == build_variant_text(os@, arch@, cuda),
{
    let o = chars_of_str(os);
    let a = chars_of_str(arch);
    let mut s = if chars_equal(&o, "windows") {
        String::from_str("Windows")
    } else if chars_equal(&o, "macos") {
        String::from_str("macOS")
    } else {
        String::from_str("Linux")
    };
    push_str(&mut s, " ");
    if chars_equal(&a, "x86_64") {
        push_str(&mut s, "x64");
    } else if chars_equal(&a, "aarch64") {
        push_str(&mut s, "ARM64");
    } else {
        push_str(&mut s, arch);
    }
    if cuda {
        push_str(&mut s, " (CUDA)");
    } else {
        push_str(&mut s, " (CPU)");
    }
    s
}

/// The libraries the CUDA runtime of ONNX Runtime loads, looked for on the
/// search path.
pub open spec fn cuda_dll_names() -> Seq<Seq<char>> {
    seq![
        "cudart64_12.dll"@,
        "cublas64_12.dll"@,
        "cublasLt64_12.dll"@,
        "cudnn64_9.dll"@,
        "cudnn_ops64_9.dll"@,
        "cudnn_cnn64_9.dll"@,
    ]
}

/// The library names to look for on the search path.
pub fn cuda_dlls() -> (r: Vec<&'static str>)
    ensures
        r@.len() == 6,
        forall|i: int| 0 <= i < 6 ==> (#[trigger] r@[i])@ == cuda_dll_names()[i],
{
    let r = vec![
        "cudart64_12.dll",
        "cublas64_12.dll",
        "cublasLt64_12.dll",
        "cudnn64_9.dll",
        "cudnn_ops64_9.dll",
        "cudnn_cnn64_9.dll",
    ];
    assert(r@.len() == 6);
    r
}

/// `name` is one of the texts of `found`.
pub open spec fn listed(found: Seq<String>, name: Seq<char>) -> bool {
    exists|i: int| 0 <= i < found.len() && (#[trigger] found[i])@ == name
}

fn is_listed(found: &Vec<String>, name: &str) -> (r: bool)
    ensures
        r == listed(found@, name@),
{
    let mut i: usize = 0;
    while i < found.len()
        invariant
            i <= found@.len(),
            forall|j: int| 0 <= j < i ==> (#[trigger] found@[j])@ != name@,
        decreases found.len() - i,
    {
        if str_equal(found[i].as_str(), name) {
            return true;
        }
        i = i + 1;
    }
    false
}

/// The CUDA dependency report from the names of the libraries found on the
/// search path: each dependency is found when all of its libraries are.
pub fn cuda_dependencies_found(found: &Vec<String>) -> (r: CudaDependencyStatus)
    ensures
        cuda_report(
            r,
            listed(found@, "cudart64_12.dll"@),
            listed(found@, "cublas64_12.dll"@) && listed(found@, "cublasLt64_12.dll"@),
            listed(found@, "cudnn64_9.dll"@) && listed(found@, "cudnn_ops64_9.dll"@) && listed(
                found@,
                "cudnn_cnn64_9.dll"@,
            ),
        ),
{
    let cudart = is_listed(found, "cudart64_12.dll");
    let cublas = is_listed(found, "cublas64_12.dll") && is_listed(found, "cublasLt64_12.dll");
    let cudnn = is_listed(found, "cudnn64_9.dll") && is_listed(found, "cudnn_ops64_9.dll") && is_listed(
        found,
        "cudnn_cnn64_9.dll",
    );
    cuda_dependency_status(cudart, cublas, cudnn)
}

/// A dependency-report line for a file: its path, marked when it is missing.
pub open spec fn status_line(display: Seq<char>, exists: bool) -> Seq<char> {
    if exists { display } else { display + " (NOT FOUND)"@ }
}

/// The report line for a file's path, marked ` (NOT FOUND)` when it is missing.
pub fn dependency_status_line(display: &str, exists: bool) -> (r: String)
    ensures
        r@ == status_line(display@, exists),
{
    let mut out = String::from_str(display);
    if !exists {
        push_str(&mut out, " (NOT FOUND)");
    }
    out
}

/// The report line for a provider library: the bundled copy when present,
/// else the first copy on the search path (marked ` (system)`), else the
/// bundled path marked missing.
pub open spec fn library_line(bundled: Seq<char>, bundled_exists: bool, on_path: Option<Seq<char>>) -> Seq<char> {
    if bundled_exists {
        bundled
    } else {
        match on_path {
            Some(p) => p + " (system)"@,
            None => bundled + " (NOT FOUND)"@,
        }
    }
}

/// The report line for a provider library (see `library_line`).
pub fn dependency_library_line(bundled: &str, bundled_exists: bool, on_path: Option<&str>) -> (r: String)
    ensures
        r@ == library_line(
            bundled@,
            bundled_exists,
            match on_path {
                Some(p) => Some(p@),
                None => None,
            },
        ),
{
    if bundled_exists {
        return String::from_str(bundled);
    }
    match on_path {
        Some(p) => {
            let mut out = String::from_str(p);
            push_str(&mut out, " (system)");
            out
        },
        None => dependency_status_line(bundled, false),
    }
}

/// The provider and CUDA libraries a CUDA build reports, as (label, file name):
/// the two ONNX Runtime providers (DLLs on Windows, shared objects elsewhere),
/// then on Windows and Linux the CUDA runtime, cuBLAS, cuBLAS Lt, cuDNN, cuDNN Ops
/// and cuDNN CNN libraries.
pub open spec fn cuda_report_files(windows: bool, linux: bool) -> Seq<(Seq<char>, Seq<char>)> {
    let providers = if windows {
        seq![
            ("ORT CUDA Provider"@, "onnxruntime_providers_cuda.dll"@),
            ("ORT Shared Provider"@, "onnxruntime_providers_shared.dll"@),
        ]
    } else {
        seq![
            ("ORT CUDA Provider"@, "libonnxruntime_providers_cuda.so"@),
            ("ORT Shared Provider"@, "libonnxruntime_providers_shared.so"@),
        ]
    };
    let libs = if windows {
        seq![
            ("CUDA Runtime"@, "cudart64_12.dll"@),
            ("cuBLAS"@, "cublas64_12.dll"@),
            ("cuBLAS Lt"@, "cublasLt64_12.dll"@),
            ("cuDNN"@, "cudnn64_9.dll"@),
            ("cuDNN Ops"@, "cudnn_ops64_9.dll"@),
            ("cuDNN CNN"@, "cudnn_cnn64_9.dll"@),
        ]
    } else if linux {
        seq![
            ("CUDA Runtime"@, "libcudart.so.12"@),
            ("cuBLAS"@, "libcublas.so.12"@),
            ("cuBLAS Lt"@, "libcublasLt.so.12"@),
            ("cuDNN"@, "libcudnn.so.9"@),
            ("cuDNN Ops"@, "libcudnn_ops.so.9"@),
            ("cuDNN CNN"@, "libcudnn_cnn.so.9"@),
        ]
    } else {
        Seq::empty()
    };
    providers + libs
}

/// The libraries a CUDA build reports (see `cuda_report_files`).
pub fn cuda_report_libraries(windows: bool, linux: bool) -> (r: Vec<(&'static str, &'static str)>)
    ensures
        r@.len() == cuda_report_files(windows, linux).len(),
        forall|i: int|
            0 <= i < r@.len() ==> ((#[trigger] r@[i]).0@, r@[i].1@) == cuda_report_files(windows, linux)[i],
{
    let mut r: Vec<(&'static str, &'static str)> = Vec::new();
    if windows {
        r.push(("ORT CUDA Provider", "onnxruntime_providers_cuda.dll"));
        r.push(("ORT Shared Provider", "onnxruntime_providers_shared.dll"));
        r.push(("CUDA Runtime", "cudart64_12.dll"));
        r.push(("cuBLAS", "cublas64_12.dll"));
        r.push(("cuBLAS Lt", "cublasLt64_12.dll"));
        r.push(("cuDNN", "cudnn64_9.dll"));
        r.push(("cuDNN Ops", "cudnn_ops64_9.dll"));
        r.push(("cuDNN CNN", "cudnn_cnn64_9.dll"));
    } else {
        r.push(("ORT CUDA Provider", "libonnxruntime_providers_cuda.so"));
        r.push(("ORT Shared Provider", "libonnxruntime_providers_shared.so"));
        if linux {
            r.push(("CUDA Runtime", "libcudart.so.12"));
            r.push(("cuBLAS", "libcublas.so.12"));
            r.push(("cuBLAS Lt", "libcublasLt.so.12"));
            r.push(("cuDNN", "libcudnn.so.9"));
            r.push(("cuDNN Ops", "libcudnn_ops.so.9"));
            r.push(("cuDNN CNN", "libcudnn_cnn.so.9"));
        }
    }
    assert(r@.len() == cuda_report_files(windows, linux).len());
    r
}

} // verus!
