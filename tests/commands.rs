use docs_queue::commands::{
    build_target, reference_source, should_update_toolchain, BuildArgError, BuildTarget,
    PackageKind, ReferenceSource,
};

fn s(v: &str) -> Option<String> {
    Some(v.to_string())
}

#[test]
fn local_path_wins() {
    assert_eq!(
        build_target(None, None, s("/src/pkg"), s("https://r.invalid")),
        Ok(BuildTarget::Local("/src/pkg".to_string()))
    );
}

#[test]
fn named_release_from_public_registry() {
    assert_eq!(
        build_target(s("serde"), s("1.0.0"), None, None),
        Ok(BuildTarget::Package {
            name: "serde".to_string(),
            version: "1.0.0".to_string(),
            kind: PackageKind::CratesIo,
        })
    );
}

#[test]
fn named_release_from_alternate_registry() {
    assert_eq!(
        build_target(s("serde"), s("1.0.0"), None, s("https://r.invalid")),
        Ok(BuildTarget::Package {
            name: "serde".to_string(),
            version: "1.0.0".to_string(),
            kind: PackageKind::Registry("https://r.invalid".to_string()),
        })
    );
}

#[test]
fn missing_build_arguments() {
    assert_eq!(build_target(None, None, None, None), Err(BuildArgError::MissingName));
    assert_eq!(build_target(None, s("1.0.0"), None, None), Err(BuildArgError::MissingName));
    assert_eq!(build_target(s("serde"), None, None, None), Err(BuildArgError::MissingVersion));
}

#[test]
fn reference_source_choice() {
    assert_eq!(
        reference_source(s("0123abcd"), false),
        Some(ReferenceSource::Given("0123abcd".to_string()))
    );
    assert_eq!(reference_source(None, true), Some(ReferenceSource::Head));
    assert_eq!(reference_source(None, false), None);
    assert_eq!(reference_source(s("0123abcd"), true), None);
}

#[test]
fn toolchain_update_decision() {
    assert!(should_update_toolchain(false, false));
    assert!(should_update_toolchain(false, true));
    assert!(should_update_toolchain(true, false));
    assert!(!should_update_toolchain(true, true));
}
