use ret::arch::Architecture;

#[test]
fn test_architecture_display_arm64() {
    assert_eq!(Architecture::Arm64.display_string(), "arm64");
}

#[test]
fn test_architecture_display_x64() {
    assert_eq!(Architecture::X64.display_string(), "x86_64");
}

#[test]
fn test_architecture_display_x86() {
    assert_eq!(Architecture::X86.display_string(), "x86");
}

#[test]
fn test_architecture_ordering() {
    assert!(Architecture::Arm64 < Architecture::X64);
    assert!(Architecture::X64 < Architecture::X86);
    assert_eq!(Architecture::X64.cmp(&Architecture::X64), std::cmp::Ordering::Equal);
}

#[test]
fn test_architecture_partial_ordering() {
    assert_eq!(
        Architecture::X64.partial_cmp(&Architecture::X86),
        Some(std::cmp::Ordering::Less)
    );
    assert_eq!(
        Architecture::X86.partial_cmp(&Architecture::X64),
        Some(std::cmp::Ordering::Greater)
    );
}

#[test]
fn test_architecture_equality() {
    assert_eq!(Architecture::X64, Architecture::X64);
    assert_eq!(Architecture::X86, Architecture::X86);
    assert_eq!(Architecture::Arm64, Architecture::Arm64);
    assert_ne!(Architecture::X64, Architecture::Arm64);
}

#[test]
fn test_architecture_clone() {
    let arch = Architecture::Arm64;
    assert_eq!(arch.clone(), Architecture::Arm64);
}

#[test]
fn test_architecture_debug() {
    assert_eq!(format!("{:?}", Architecture::X64), "X64");
    assert_eq!(format!("{:?}", Architecture::X86), "X86");
    assert_eq!(format!("{:?}", Architecture::Arm64), "Arm64");
}

#[test]
fn infer_from_path_detects_aarch64() {
    assert_eq!(
        Architecture::infer_from_path("/nix/store/hash-R-4.4.1-aarch64/lib/R", Architecture::X64),
        Architecture::Arm64
    );
}

#[test]
fn infer_from_path_detects_x86_64() {
    assert_eq!(
        Architecture::infer_from_path("/nix/store/hash-R-4.4.1-x86_64/lib/R", Architecture::Arm64),
        Architecture::X64
    );
}

#[test]
fn infer_from_path_detects_i386() {
    assert_eq!(
        Architecture::infer_from_path("/opt/R/i386/bin/R", Architecture::X64),
        Architecture::X86
    );
}

#[test]
fn infer_from_path_falls_back_to_target_arch() {
    assert_eq!(Architecture::infer_from_path("/opt/R/bin/R", Architecture::X64), Architecture::X64);
    assert_eq!(Architecture::infer_from_path("/opt/R/bin/R", Architecture::Arm64), Architecture::Arm64);
}

#[test]
fn serialized_names_round_trip() {
    for arch in [Architecture::X64, Architecture::X86, Architecture::Arm64] {
        assert_eq!(Architecture::from_serialized_str(arch.as_serialized_str()), Some(arch));
    }
    assert_eq!(Architecture::from_serialized_str("x64"), Some(Architecture::X64));
    assert_eq!(Architecture::from_serialized_str("aarch64"), Some(Architecture::Arm64));
    assert_eq!(Architecture::from_serialized_str("sparc"), None);
}

#[test]
fn test_architecture_serialize() {
    assert_eq!(serde_json::to_string(Architecture::X64.as_serialized_str()).unwrap(), "\"x86_64\"");
    assert_eq!(serde_json::to_string(Architecture::X86.as_serialized_str()).unwrap(), "\"x86\"");
    assert_eq!(serde_json::to_string(Architecture::Arm64.as_serialized_str()).unwrap(), "\"arm64\"");
}

#[test]
fn test_architecture_deserialize() {
    let parse = |text: &str| Architecture::from_serialized_str(&serde_json::from_str::<String>(text).unwrap());
    assert_eq!(parse("\"x64\"").unwrap(), Architecture::X64);
    assert_eq!(parse("\"x86_64\"").unwrap(), Architecture::X64);
    assert_eq!(parse("\"x86\"").unwrap(), Architecture::X86);
    assert_eq!(parse("\"arm64\"").unwrap(), Architecture::Arm64);
    assert_eq!(parse("\"aarch64\"").unwrap(), Architecture::Arm64);
}

#[test]
fn serialized_names_round_trip_and_ignore_case() {
    for a in [Architecture::Arm64, Architecture::X64, Architecture::X86] {
        assert_eq!(Architecture::from_serialized_str(a.as_serialized_str()), Some(a));
        assert_eq!(Architecture::from_serialized_str(&a.as_serialized_str().to_ascii_uppercase()), Some(a));
    }
    assert_eq!(Architecture::from_serialized_str("AaRcH64"), Some(Architecture::Arm64));
    assert_eq!(Architecture::from_serialized_str("sparc"), None);
}
