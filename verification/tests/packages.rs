use trustfall_rustdoc::error::LoadingError;
use trustfall_rustdoc::metadata::{
    get_package_metadata, pick_unique, DependencySource, Metadata, PackageRecord, RootRecord,
    TargetDependency,
};

fn record(name: &str, version: &str, manifest_path: &str) -> PackageRecord {
    PackageRecord {
        name: name.to_string(),
        version: Some(version.to_string()),
        manifest_path: Some(manifest_path.to_string()),
    }
}

fn path_dependency(name: &str, path: &str) -> TargetDependency {
    TargetDependency { name: name.to_string(), source: DependencySource::Path(path.to_string()) }
}

fn version_dependency(name: &str, requirement: &str) -> TargetDependency {
    TargetDependency {
        name: name.to_string(),
        source: DependencySource::Requirement(requirement.to_string()),
    }
}

fn metadata(dependencies: Vec<TargetDependency>, packages: Vec<PackageRecord>) -> Metadata {
    Metadata { root: Some(RootRecord { dependencies }), packages }
}

#[test]
fn path_dependency_with_one_record_under_it() {
    let wanted = record("target", "0.3.0", "/work/target/Cargo.toml");
    let m = metadata(
        vec![path_dependency("target", "/work/target")],
        vec![
            record("placeholder", "0.0.0", "/tmp/placeholder/Cargo.toml"),
            record("target", "0.2.0", "/registry/target-0.2.0/Cargo.toml"),
            wanted.clone(),
            record("serde", "1.0.0", "/registry/serde-1.0.0/Cargo.toml"),
        ],
    );
    assert_eq!(get_package_metadata(m), Ok(wanted));
}

#[test]
fn path_dependency_with_no_record_under_it() {
    let m = metadata(
        vec![path_dependency("target", "/work/target")],
        vec![
            record("target", "0.2.0", "/registry/target-0.2.0/Cargo.toml"),
            record("other", "0.3.0", "/work/target/Cargo.toml"),
        ],
    );
    assert_eq!(get_package_metadata(m), Err(LoadingError::PackageNotFound("target".to_string())));
}

#[test]
fn path_dependency_with_two_records_under_it() {
    let m = metadata(
        vec![path_dependency("target", "/work/target")],
        vec![
            record("target", "0.2.0", "/work/target/Cargo.toml"),
            record("target", "0.3.0", "/work/target/nested/Cargo.toml"),
        ],
    );
    assert_eq!(get_package_metadata(m), Err(LoadingError::AmbiguousPackage("target".to_string())));
}

#[test]
fn path_prefix_is_by_whole_components() {
    let m = metadata(
        vec![path_dependency("target", "/work/tar")],
        vec![record("target", "0.2.0", "/work/target/Cargo.toml")],
    );
    assert_eq!(get_package_metadata(m), Err(LoadingError::PackageNotFound("target".to_string())));
}

#[test]
fn record_without_manifest_path_is_under_no_path() {
    let m = metadata(
        vec![path_dependency("target", "/work/target")],
        vec![PackageRecord {
            name: "target".to_string(),
            version: Some("0.2.0".to_string()),
            manifest_path: None,
        }],
    );
    assert_eq!(get_package_metadata(m), Err(LoadingError::PackageNotFound("target".to_string())));
}

#[test]
fn version_dependency_with_one_record_that_meets_it() {
    let wanted = record("target", "1.4.2", "/registry/target-1.4.2/Cargo.toml");
    let m = metadata(
        vec![version_dependency("target", "^1.0.0")],
        vec![
            record("target", "0.9.0", "/registry/target-0.9.0/Cargo.toml"),
            wanted.clone(),
            record("target", "2.0.0", "/registry/target-2.0.0/Cargo.toml"),
            record("other", "1.0.0", "/registry/other-1.0.0/Cargo.toml"),
        ],
    );
    assert_eq!(get_package_metadata(m), Ok(wanted));
}

#[test]
fn version_dependency_with_two_records_that_meet_it() {
    let m = metadata(
        vec![version_dependency("target", "^1.0.0")],
        vec![
            record("target", "1.0.0", "/registry/target-1.0.0/Cargo.toml"),
            record("target", "1.4.2", "/registry/target-1.4.2/Cargo.toml"),
        ],
    );
    assert_eq!(get_package_metadata(m), Err(LoadingError::AmbiguousPackage("target".to_string())));
}

#[test]
fn version_dependency_with_no_record_that_meets_it() {
    let m = metadata(
        vec![version_dependency("target", "^1.0.0")],
        vec![
            record("target", "0.9.0", "/registry/target-0.9.0/Cargo.toml"),
            record("target", "2.0.0", "/registry/target-2.0.0/Cargo.toml"),
            record("target", "1.5.0-beta.1", "/registry/target-1.5.0-beta.1/Cargo.toml"),
        ],
    );
    assert_eq!(get_package_metadata(m), Err(LoadingError::PackageNotFound("target".to_string())));
}

#[test]
fn requirement_is_asked_of_semver_not_compared_as_text() {
    // Fails if the answer were the requirement or the version handed back.
    let wanted = record("target", "1.2.3", "/registry/target-1.2.3/Cargo.toml");
    let m = metadata(
        vec![version_dependency("target", ">=1.2, <1.3")],
        vec![wanted.clone(), record("target", "1.3.0", "/registry/target-1.3.0/Cargo.toml")],
    );
    assert_eq!(get_package_metadata(m), Ok(wanted));
}

#[test]
fn text_that_is_no_version_meets_no_requirement() {
    let m = metadata(
        vec![version_dependency("target", "^1.0.0")],
        vec![
            record("target", "one point oh", "/a/Cargo.toml"),
            PackageRecord {
                name: "target".to_string(),
                version: None,
                manifest_path: Some("/b/Cargo.toml".to_string()),
            },
        ],
    );
    assert_eq!(get_package_metadata(m), Err(LoadingError::PackageNotFound("target".to_string())));
    let m = metadata(
        vec![version_dependency("target", "not a requirement")],
        vec![record("target", "1.0.0", "/a/Cargo.toml")],
    );
    assert_eq!(get_package_metadata(m), Err(LoadingError::PackageNotFound("target".to_string())));
}

#[test]
fn metadata_without_root() {
    let m = Metadata { root: None, packages: vec![record("target", "1.0.0", "/a/Cargo.toml")] };
    assert_eq!(
        get_package_metadata(m),
        Err(LoadingError::MetadataParsing(
            "no root package found in 'cargo metadata' output".to_string()
        ))
    );
}

#[test]
fn root_must_have_exactly_one_dependency() {
    let message = "the metadata unexpectedly contained more than one dependency; we expected our target package to be the only dependency";
    let packages = vec![record("target", "1.0.0", "/a/Cargo.toml")];
    let none = metadata(vec![], packages.clone());
    assert_eq!(get_package_metadata(none), Err(LoadingError::MetadataParsing(message.to_string())));
    let two = metadata(
        vec![version_dependency("target", "^1.0.0"), version_dependency("other", "^1.0.0")],
        packages,
    );
    assert_eq!(get_package_metadata(two), Err(LoadingError::MetadataParsing(message.to_string())));
}

#[test]
fn pick_unique_counts_the_kept_records_of_the_name() {
    let packages = vec![
        record("a", "1.0.0", "/a/Cargo.toml"),
        record("b", "1.0.0", "/b/Cargo.toml"),
        record("a", "2.0.0", "/a2/Cargo.toml"),
    ];
    assert_eq!(pick_unique(&packages, "a", &vec![false, true, true]), Ok(2));
    assert_eq!(pick_unique(&packages, "a", &vec![true, true, false]), Ok(0));
    assert_eq!(
        pick_unique(&packages, "a", &vec![true, true, true]),
        Err(LoadingError::AmbiguousPackage("a".to_string()))
    );
    assert_eq!(
        pick_unique(&packages, "a", &vec![false, true, false]),
        Err(LoadingError::PackageNotFound("a".to_string()))
    );
    assert_eq!(
        pick_unique(&packages, "c", &vec![true, true, true]),
        Err(LoadingError::PackageNotFound("c".to_string()))
    );
    // A record without an answer is not kept.
    assert_eq!(pick_unique(&packages, "a", &vec![true]), Ok(0));
    assert_eq!(
        pick_unique(&Vec::new(), "a", &Vec::new()),
        Err(LoadingError::PackageNotFound("a".to_string()))
    );
}
