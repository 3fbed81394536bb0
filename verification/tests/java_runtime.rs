use std::path::PathBuf;

use mado::{
    check_release_size, classify_architecture, classify_vendor, max_metadata_value_bytes,
    max_release_file_bytes, parse_key_value_lines, parse_probe_metadata, parse_release_metadata,
    validate_metadata_value, JavaArchitecture, JavaArchitectureKind, JavaMetadata,
    JavaRuntimeError, JavaRuntimeInfo, JavaVendor, JavaVendorKind, JavaVersion,
    MAX_METADATA_VALUE_BYTES,
};

#[test]
fn parses_java_8_release_file() {
    let metadata = JavaMetadata::from_release_file(
        r#"
JAVA_VERSION="1.8.0_402"
IMPLEMENTOR="Eclipse Adoptium"
OS_ARCH="x86_64"
"#,
    )
    .unwrap();

    let version = JavaVersion::parse(&metadata.version).unwrap();
    assert_eq!(version.major, 8);
    assert_eq!(
        JavaVendor::from_raw(metadata.vendor).kind,
        JavaVendorKind::Temurin
    );
    assert_eq!(
        JavaArchitecture::from_raw(metadata.architecture).kind,
        JavaArchitectureKind::X86_64
    );
}

#[test]
fn parses_modern_release_file_versions() {
    for (raw, major) in [
        ("17.0.11+9", 17_u16),
        ("21.0.5+11-LTS", 21_u16),
        ("25.0.1+8-LTS", 25_u16),
    ] {
        let version = JavaVersion::parse(raw).unwrap();
        assert_eq!(version.major, major);
    }
}

#[test]
fn normalizes_vendor_strings() {
    for (raw, kind) in [
        ("Eclipse Adoptium", JavaVendorKind::Temurin),
        ("Eclipse Temurin", JavaVendorKind::Temurin),
        ("Azul Systems, Inc.", JavaVendorKind::Zulu),
        ("Azul Zulu", JavaVendorKind::Zulu),
        ("BellSoft", JavaVendorKind::Liberica),
        ("LibericaJDK", JavaVendorKind::Liberica),
        ("Oracle Corporation", JavaVendorKind::Oracle),
        ("OpenJDK", JavaVendorKind::OpenJdk),
        ("Microsoft", JavaVendorKind::Microsoft),
        ("Amazon.com Inc.", JavaVendorKind::Corretto),
        ("Amazon Corretto", JavaVendorKind::Corretto),
        ("Someone Else", JavaVendorKind::Unknown),
    ] {
        assert_eq!(JavaVendor::from_raw(raw.to_string()).kind, kind);
    }
}

#[test]
fn normalizes_architecture_strings() {
    for (raw, kind) in [
        ("x86_64", JavaArchitectureKind::X86_64),
        ("amd64", JavaArchitectureKind::X86_64),
        ("aarch64", JavaArchitectureKind::Aarch64),
        ("arm64", JavaArchitectureKind::Aarch64),
        ("i386", JavaArchitectureKind::X86),
        ("arm", JavaArchitectureKind::Arm),
        ("riscv64", JavaArchitectureKind::Unknown),
    ] {
        assert_eq!(JavaArchitecture::from_raw(raw.to_string()).kind, kind);
    }
}

#[test]
fn reports_invalid_version() {
    let error = JavaVersion::parse("not-a-version")
        .err()
        .unwrap_or_else(|| JavaRuntimeError::InvalidVersion { raw: String::new() });

    assert!(matches!(error, JavaRuntimeError::InvalidVersion { .. }));
}

#[test]
fn reports_missing_version_metadata() {
    let error = JavaMetadata::from_release_file(
        r#"
IMPLEMENTOR="Oracle Corporation"
OS_ARCH="x86_64"
"#,
    )
    .err()
    .unwrap_or(JavaRuntimeError::MissingMetadata {
        field: "JAVA_VERSION",
    });

    assert!(matches!(
        error,
        JavaRuntimeError::MissingMetadata {
            field: "JAVA_VERSION"
        }
    ));
}

#[test]
fn parses_probe_output() {
    let metadata = JavaMetadata::from_probe_output(
        "",
        r"
Property settings:
    java.version = 21.0.5
    java.vendor = Eclipse Adoptium
    os.arch = aarch64
",
    )
    .unwrap();

    assert_eq!(metadata.version, "21.0.5");
    assert_eq!(metadata.vendor, "Eclipse Adoptium");
    assert_eq!(metadata.architecture, "aarch64");
}

#[test]
fn probe_output_defaults_missing_vendor_and_architecture() {
    let metadata = JavaMetadata::from_probe_output("", "java.version = 17.0.11").unwrap();

    assert_eq!(metadata.version, "17.0.11");
    assert_eq!(metadata.vendor, "Unknown");
    assert_eq!(metadata.architecture, "unknown");
}

#[test]
fn reports_missing_version_in_probe_output() {
    let error = JavaMetadata::from_probe_output("", "java.vendor = Oracle")
        .err()
        .unwrap_or(JavaRuntimeError::MissingMetadata {
            field: "java.version",
        });

    assert!(matches!(
        error,
        JavaRuntimeError::MissingMetadata {
            field: "java.version"
        }
    ));
}

#[test]
fn release_file_falls_back_to_java_vendor() {
    let metadata = JavaMetadata::from_release_file(
        r#"
JAVA_VERSION="17.0.11"
JAVA_VENDOR="Oracle Corporation"
OS_ARCH="x86_64"
"#,
    )
    .unwrap();

    assert_eq!(metadata.vendor, "Oracle Corporation");
}

#[test]
fn release_file_defaults_vendor_and_architecture() {
    let metadata = JavaMetadata::from_release_file(
        r#"
JAVA_VERSION="21.0.5"
"#,
    )
    .unwrap();

    assert_eq!(metadata.vendor, "Unknown");
    assert_eq!(metadata.architecture, "unknown");
}

#[test]
fn release_file_falls_back_to_sun_arch_abi() {
    let metadata = JavaMetadata::from_release_file(
        r#"
JAVA_VERSION="11.0.24"
IMPLEMENTOR="Oracle Corporation"
SUN_ARCH_ABI="amd64"
"#,
    )
    .unwrap();

    assert_eq!(metadata.architecture, "amd64");
}

#[test]
fn parse_key_value_lines_skips_comments_and_unquotes_values() {
    let values = parse_key_value_lines(
        r#"
# comment
# JAVA_VERSION="99.0.0"
JAVA_VERSION="21.0.5"

IMPLEMENTOR=Eclipse Adoptium
"#,
    );

    assert_eq!(values.get("JAVA_VERSION"), Some(&"21.0.5".to_string()));
    assert_eq!(
        values.get("IMPLEMENTOR"),
        Some(&"Eclipse Adoptium".to_string())
    );
    assert!(values.keys().iter().all(|key| !key.starts_with('#')));
    assert_eq!(values.len(), 2);
}

#[test]
fn reports_invalid_version_edge_cases() {
    for raw in ["", "   ", "1.", "\"\""] {
        let error = JavaVersion::parse(raw)
            .err()
            .unwrap_or_else(|| JavaRuntimeError::InvalidVersion { raw: String::new() });

        assert!(matches!(error, JavaRuntimeError::InvalidVersion { .. }));
    }
}

#[test]
fn reports_required_metadata_value_too_large() {
    let content = format!(
        "JAVA_VERSION=\"{}\"",
        "1".repeat(MAX_METADATA_VALUE_BYTES + 1)
    );
    let error = JavaMetadata::from_release_file(&content).err().unwrap_or(
        JavaRuntimeError::MetadataValueTooLarge {
            field: "JAVA_VERSION",
            max_bytes: MAX_METADATA_VALUE_BYTES,
        },
    );

    assert!(matches!(
        error,
        JavaRuntimeError::MetadataValueTooLarge {
            field: "JAVA_VERSION",
            ..
        }
    ));
}

#[test]
fn reports_optional_metadata_value_too_large() {
    let content = format!(
        "JAVA_VERSION=\"21.0.5\"\nIMPLEMENTOR=\"{}\"",
        "A".repeat(MAX_METADATA_VALUE_BYTES + 1)
    );
    let error = JavaMetadata::from_release_file(&content).err().unwrap_or(
        JavaRuntimeError::MetadataValueTooLarge {
            field: "IMPLEMENTOR",
            max_bytes: MAX_METADATA_VALUE_BYTES,
        },
    );

    assert!(matches!(
        error,
        JavaRuntimeError::MetadataValueTooLarge {
            field: "IMPLEMENTOR",
            ..
        }
    ));
}

#[test]
fn reports_probe_metadata_value_too_large() {
    let stderr = format!(
        "java.version = 21.0.5\njava.vendor = {}",
        "A".repeat(MAX_METADATA_VALUE_BYTES + 1)
    );
    let error = JavaMetadata::from_probe_output("", &stderr)
        .err()
        .unwrap_or(JavaRuntimeError::MetadataValueTooLarge {
            field: "java.vendor",
            max_bytes: MAX_METADATA_VALUE_BYTES,
        });

    assert!(matches!(
        error,
        JavaRuntimeError::MetadataValueTooLarge {
            field: "java.vendor",
            ..
        }
    ));
}

#[test]
fn reports_version_value_too_large_without_echoing_raw_input() {
    let error = JavaVersion::parse(&"1".repeat(MAX_METADATA_VALUE_BYTES + 1))
        .err()
        .unwrap_or(JavaRuntimeError::MetadataValueTooLarge {
            field: "version",
            max_bytes: MAX_METADATA_VALUE_BYTES,
        });

    assert!(matches!(
        error,
        JavaRuntimeError::MetadataValueTooLarge {
            field: "version",
            ..
        }
    ));
}

#[test]
fn reports_control_character_in_metadata_value() {
    let error = JavaMetadata::from_release_file("JAVA_VERSION=\"21.0.5\u{1b}[31m\"")
        .err()
        .unwrap_or(JavaRuntimeError::MetadataValueContainsControl {
            field: "JAVA_VERSION",
        });

    assert!(matches!(
        error,
        JavaRuntimeError::MetadataValueContainsControl {
            field: "JAVA_VERSION"
        }
    ));
}

#[test]
fn reports_control_character_in_version_without_echoing_raw_input() {
    let error = JavaVersion::parse("21.0.5\u{0}")
        .err()
        .unwrap_or(JavaRuntimeError::MetadataValueContainsControl { field: "version" });

    assert!(matches!(
        error,
        JavaRuntimeError::MetadataValueContainsControl { field: "version" }
    ));
}

#[test]
fn parses_version_with_quotes_and_whitespace() {
    let version = JavaVersion::parse("  \"21.0.5+11-LTS\"  ").unwrap();
    assert_eq!(version.major, 21);
    assert_eq!(version.raw, "21.0.5+11-LTS");
}

#[test]
fn normalizes_remaining_architecture_variants() {
    for (raw, kind) in [
        ("i486", JavaArchitectureKind::X86),
        ("i586", JavaArchitectureKind::X86),
        ("i686", JavaArchitectureKind::X86),
        ("arm32", JavaArchitectureKind::Arm),
    ] {
        assert_eq!(JavaArchitecture::from_raw(raw.to_string()).kind, kind);
    }
}

#[test]
fn vendor_kind_display_round_trip() {
    for (kind, label) in [
        (JavaVendorKind::Temurin, "temurin"),
        (JavaVendorKind::Zulu, "zulu"),
        (JavaVendorKind::Liberica, "liberica"),
        (JavaVendorKind::Oracle, "oracle"),
        (JavaVendorKind::OpenJdk, "openjdk"),
        (JavaVendorKind::Microsoft, "microsoft"),
        (JavaVendorKind::Corretto, "corretto"),
        (JavaVendorKind::Unknown, "unknown"),
    ] {
        assert_eq!(kind.to_string(), label);
    }
}

#[test]
fn architecture_kind_display_round_trip() {
    for (kind, label) in [
        (JavaArchitectureKind::X86_64, "x86_64"),
        (JavaArchitectureKind::Aarch64, "aarch64"),
        (JavaArchitectureKind::X86, "x86"),
        (JavaArchitectureKind::Arm, "arm"),
        (JavaArchitectureKind::Unknown, "unknown"),
    ] {
        assert_eq!(kind.to_string(), label);
    }
}

#[test]
fn later_release_lines_win_and_values_are_trimmed() {
    let values = parse_key_value_lines("A = 1\r\nA=\"2\"\n  B  =  x y  \nno separator\n=empty key");
    assert_eq!(values.get("A"), Some(&"2".to_string()));
    assert_eq!(values.get("B"), Some(&"x y".to_string()));
    assert_eq!(values.get(""), Some(&"empty key".to_string()));
    assert_eq!(values.len(), 3);
    assert_eq!(values.keys(), vec!["".to_string(), "A".to_string(), "B".to_string()]);
}

#[test]
fn blank_required_value_counts_as_missing() {
    let error = JavaMetadata::from_release_file("JAVA_VERSION=\"  \"").err();
    assert!(matches!(
        error,
        Some(JavaRuntimeError::MissingMetadata {
            field: "JAVA_VERSION"
        })
    ));
}

#[test]
fn version_parsing_edge_values() {
    assert_eq!(JavaVersion::parse("65535").unwrap().major, 65535);
    assert!(matches!(
        JavaVersion::parse("65536"),
        Err(JavaRuntimeError::InvalidVersion { .. })
    ));
    assert_eq!(JavaVersion::parse("+9").unwrap().major, 9);
    assert_eq!(JavaVersion::parse("1.9_1").unwrap().major, 9);
    assert_eq!(JavaVersion::parse("11-ea").unwrap().major, 11);
    match JavaVersion::parse(" \"x.1\" ") {
        Err(JavaRuntimeError::InvalidVersion { raw }) => assert_eq!(raw, "x.1"),
        other => panic!("unexpected {other:?}"),
    }
}

#[test]
fn metadata_value_checks() {
    assert_eq!(
        validate_metadata_value("field", "ok".to_string()).unwrap(),
        "ok"
    );
    let long = "é".repeat(257);
    assert!(matches!(
        validate_metadata_value("field", long),
        Err(JavaRuntimeError::MetadataValueTooLarge { field: "field", max_bytes: 512 })
    ));
    assert!(validate_metadata_value("field", "é".repeat(256)).is_ok());
    assert!(matches!(
        validate_metadata_value("field", "a\u{7f}".to_string()),
        Err(JavaRuntimeError::MetadataValueContainsControl { field: "field" })
    ));
    assert_eq!(max_metadata_value_bytes(), 512);
}

#[test]
fn release_size_limit() {
    assert_eq!(max_release_file_bytes(), 65536);
    assert!(check_release_size(PathBuf::from("release"), 65536).is_ok());
    assert!(matches!(
        check_release_size(PathBuf::from("release"), 65537),
        Err(JavaRuntimeError::ReleaseFileTooLarge { size: 65537, max_size: 65536, .. })
    ));
}

#[test]
fn runtime_info_from_metadata() {
    let metadata = JavaMetadata {
        version: "21.0.5+11-LTS".to_string(),
        vendor: "Azul Systems, Inc.".to_string(),
        architecture: "AARCH64".to_string(),
    };
    let info = JavaRuntimeInfo::from_metadata(
        PathBuf::from("/jdk"),
        PathBuf::from("/jdk/bin/java"),
        metadata,
    )
    .unwrap();
    assert_eq!(info.version.major, 21);
    assert_eq!(info.vendor.kind, JavaVendorKind::Zulu);
    assert_eq!(info.architecture.kind, JavaArchitectureKind::Aarch64);
    assert_eq!(info.architecture.raw, "AARCH64");
    assert_eq!(info.java_executable, PathBuf::from("/jdk/bin/java"));
}

#[test]
fn helper_entry_points_agree() {
    let parsed = parse_release_metadata("JAVA_VERSION=1\nOS_ARCH=arm").unwrap();
    assert_eq!(parsed.version, "1");
    assert_eq!(parsed.vendor, "Unknown");
    assert_eq!(parsed.architecture, "arm");
    let probed = parse_probe_metadata("java.version = 17", "os.arch = amd64").unwrap();
    assert_eq!(probed.architecture, "amd64");
    assert_eq!(classify_vendor("AMAZON"), JavaVendorKind::Corretto);
    assert_eq!(classify_architecture("I686"), JavaArchitectureKind::X86);
}
