use std::cell::Cell;
use std::path::PathBuf;

use mado::{
    resolve_runtime, JavaArchitectureKind, JavaMetadata, JavaProbe, JavaProbeOutput,
    JavaRuntimeError, JavaVendorKind,
};

const PROBE_STDERR: &str = r"
Property settings:
    java.version = 21.0.5
    java.vendor = Eclipse Adoptium
    os.arch = aarch64
";

enum FakeProbeResult {
    Success,
    Failure,
}

struct FakeJavaProbe {
    result: FakeProbeResult,
    calls: Cell<usize>,
}

impl FakeJavaProbe {
    fn success() -> Self {
        Self {
            result: FakeProbeResult::Success,
            calls: Cell::new(0),
        }
    }

    fn failure() -> Self {
        Self {
            result: FakeProbeResult::Failure,
            calls: Cell::new(0),
        }
    }
}

impl JavaProbe for FakeJavaProbe {
    fn run(&self, java_executable: &PathBuf) -> Result<JavaProbeOutput, JavaRuntimeError> {
        self.calls.set(self.calls.get() + 1);

        match self.result {
            FakeProbeResult::Success => Ok(JavaProbeOutput {
                stdout: String::new(),
                stderr: PROBE_STDERR.to_string(),
            }),
            FakeProbeResult::Failure => Err(JavaRuntimeError::ProbeFailed {
                executable: java_executable.to_path_buf(),
                status: "exit status: 1".to_string(),
                stderr: "probe failed".to_string(),
            }),
        }
    }
}

fn home() -> PathBuf {
    PathBuf::from("jdk")
}

fn executable() -> PathBuf {
    PathBuf::from("jdk").join("bin").join("java")
}

#[test]
fn detects_home_via_probe_when_release_missing() {
    let probe = FakeJavaProbe::success();

    let info = resolve_runtime(home(), executable(), None, &probe).unwrap();
    assert_eq!(info.version.major, 21);
    assert_eq!(info.vendor.kind, JavaVendorKind::Temurin);
    assert_eq!(info.architecture.kind, JavaArchitectureKind::Aarch64);
    assert_eq!(probe.calls.get(), 1);
}

#[test]
fn detects_executable_via_probe_when_release_missing() {
    let probe = FakeJavaProbe::success();

    let info = resolve_runtime(home(), executable(), None, &probe).unwrap();
    assert_eq!(info.java_home, home());
    assert_eq!(info.version.major, 21);
    assert_eq!(probe.calls.get(), 1);
}

#[test]
fn falls_back_to_probe_when_release_is_incomplete() {
    let probe = FakeJavaProbe::success();
    let release = r#"
JAVA_VERSION=""
IMPLEMENTOR="Oracle Corporation"
OS_ARCH="x86_64"
"#;

    let info = resolve_runtime(home(), executable(), Some(release), &probe).unwrap();
    assert_eq!(info.version.major, 21);
    assert_eq!(info.vendor.kind, JavaVendorKind::Temurin);
    assert_eq!(probe.calls.get(), 1);
}

#[test]
fn falls_back_to_probe_when_release_is_malformed() {
    let probe = FakeJavaProbe::success();

    let info = resolve_runtime(
        home(),
        executable(),
        Some("not a valid release file"),
        &probe,
    )
    .unwrap();
    assert_eq!(info.version.major, 21);
    assert_eq!(probe.calls.get(), 1);
}

#[test]
fn reports_probe_failure() {
    let probe = FakeJavaProbe::failure();

    let error = resolve_runtime(home(), executable(), None, &probe)
        .err()
        .unwrap_or_else(|| JavaRuntimeError::ProbeFailed {
            executable: PathBuf::new(),
            status: String::new(),
            stderr: String::new(),
        });

    assert!(matches!(error, JavaRuntimeError::ProbeFailed { .. }));
    assert_eq!(probe.calls.get(), 1);
}

#[test]
fn readable_release_file_is_used_without_running_the_probe() {
    let probe = FakeJavaProbe::failure();
    let release = r#"
JAVA_VERSION="21.0.5+11-LTS"
IMPLEMENTOR="Azul Systems, Inc."
OS_ARCH="aarch64"
"#;

    let info = resolve_runtime(home(), executable(), Some(release), &probe).unwrap();
    assert_eq!(info.java_home, home());
    assert_eq!(info.java_executable, executable());
    assert_eq!(info.version.major, 21);
    assert_eq!(info.vendor.kind, JavaVendorKind::Zulu);
    assert_eq!(info.architecture.kind, JavaArchitectureKind::Aarch64);
    assert_eq!(probe.calls.get(), 0);
}

#[test]
fn release_with_bad_version_is_refused_not_probed() {
    let probe = FakeJavaProbe::success();
    let release = "JAVA_VERSION=\"not-a-version\"\n";

    let error = resolve_runtime(home(), executable(), Some(release), &probe)
        .err()
        .unwrap();
    assert!(matches!(error, JavaRuntimeError::InvalidVersion { .. }));
    assert_eq!(probe.calls.get(), 0);
}

#[test]
fn probe_run_error_is_the_answer() {
    let read = JavaMetadata::from_probe_run(Err(JavaRuntimeError::MissingMetadata {
        field: "java.version",
    }));
    assert!(matches!(
        read,
        Err(JavaRuntimeError::MissingMetadata { field: "java.version" })
    ));
}

#[test]
fn probe_run_output_is_read_like_probe_output() {
    let read = JavaMetadata::from_probe_run(Ok(JavaProbeOutput {
        stdout: "java.version = 17.0.2".to_string(),
        stderr: "os.arch = amd64".to_string(),
    }))
    .unwrap();
    assert_eq!(read.version, "17.0.2");
    assert_eq!(read.vendor, "Unknown");
    assert_eq!(read.architecture, "amd64");
}

#[test]
fn missing_release_offers_nothing() {
    assert_eq!(JavaMetadata::from_release_if_readable(None), None);
    assert_eq!(
        JavaMetadata::from_release_if_readable(Some("OS_ARCH=x86_64")),
        None
    );
    let offered = JavaMetadata::from_release_if_readable(Some("JAVA_VERSION=\"11\"")).unwrap();
    assert_eq!(offered.version, "11");
    assert_eq!(offered.vendor, "Unknown");
    assert_eq!(offered.architecture, "unknown");
}

#[test]
fn home_of_executable_is_its_grandparent() {
    assert_eq!(
        mado::home_of_executable(&executable()).unwrap(),
        PathBuf::from("jdk")
    );
    assert!(matches!(
        mado::home_of_executable(&PathBuf::from("java")),
        Err(JavaRuntimeError::ExecutableWithoutParent { .. })
    ));
    assert!(matches!(
        mado::home_of_executable(&PathBuf::from("/")),
        Err(JavaRuntimeError::ExecutableWithoutParent { .. })
    ));
}
