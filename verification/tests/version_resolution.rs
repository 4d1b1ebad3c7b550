use generate_assets::manifest::{
    bevy_version_of, get_bevy_version, parse_manifest, DependencySpec, ManifestError,
};

fn detailed(version: Option<&str>, git: Option<&str>, branch: Option<&str>) -> DependencySpec {
    DependencySpec::Detailed {
        version: version.map(String::from),
        git: git.map(String::from),
        branch: branch.map(String::from),
    }
}

#[test]
fn bare_version_is_returned_as_it_is() {
    let dep = DependencySpec::Simple("0.10".to_string());
    assert_eq!(get_bevy_version(&dep), Some("0.10".to_string()));
}

#[test]
fn detailed_version_is_returned() {
    assert_eq!(get_bevy_version(&detailed(Some("0.11"), None, None)), Some("0.11".to_string()));
}

#[test]
fn version_comes_before_git() {
    let dep = detailed(Some("0.11"), Some("https://github.com/bevyengine/bevy"), Some("main"));
    assert_eq!(get_bevy_version(&dep), Some("0.11".to_string()));
}

#[test]
fn git_on_main_is_main() {
    let dep = detailed(None, Some("https://github.com/bevyengine/bevy"), Some("main"));
    assert_eq!(get_bevy_version(&dep), Some("main".to_string()));
}

#[test]
fn git_on_another_branch_is_git() {
    let dep = detailed(None, Some("https://github.com/bevyengine/bevy"), Some("dev"));
    assert_eq!(get_bevy_version(&dep), Some("git".to_string()));
}

#[test]
fn git_without_branch_is_git() {
    let dep = detailed(None, Some("https://github.com/bevyengine/bevy"), None);
    assert_eq!(get_bevy_version(&dep), Some("git".to_string()));
}

#[test]
fn neither_version_nor_git_is_unresolved() {
    assert_eq!(get_bevy_version(&detailed(None, None, None)), None);
    assert_eq!(get_bevy_version(&detailed(None, None, Some("main"))), None);
    assert_eq!(get_bevy_version(&DependencySpec::Inherited), None);
}

#[test]
fn manifest_is_read() {
    let text = "[package]\nname = \"demo\"\nversion = \"0.1.0\"\nlicense = \"MIT OR Apache-2.0\"\n\n[dependencies]\nserde = \"1\"\nbevy = { version = \"0.11\", default-features = false }\n";
    let manifest = parse_manifest(text).unwrap();
    assert_eq!(manifest.license, Some("MIT OR Apache-2.0".to_string()));
    assert_eq!(
        manifest.dependencies,
        vec![
            ("bevy".to_string(), detailed(Some("0.11"), None, None)),
            ("serde".to_string(), DependencySpec::Simple("1".to_string())),
        ]
    );
    assert_eq!(bevy_version_of(&manifest), Some("0.11".to_string()));
}

#[test]
fn manifest_with_git_dependency() {
    let text = "[package]\nname = \"demo\"\nversion = \"0.1.0\"\n\n[dependencies]\nbevy_app = { git = \"https://github.com/bevyengine/bevy\", branch = \"main\" }\n";
    let manifest = parse_manifest(text).unwrap();
    assert_eq!(manifest.license, None);
    assert_eq!(bevy_version_of(&manifest), Some("main".to_string()));
}

#[test]
fn only_the_first_framework_dependency_counts() {
    let text = "[dependencies]\nbevy_b = \"0.9\"\nbevy_a = { path = \"../a\" }\n";
    let manifest = parse_manifest(text).unwrap();
    assert_eq!(bevy_version_of(&manifest), None);
}

#[test]
fn manifest_without_framework_dependency() {
    let manifest = parse_manifest("[dependencies]\nserde = \"1\"\nnot_bevy = \"2\"\n").unwrap();
    assert_eq!(bevy_version_of(&manifest), None);
}

#[test]
fn inherited_license_and_dependency_are_not_the_manifests_own() {
    let text = "[package]\nname = \"demo\"\nversion = \"0.1.0\"\nlicense = { workspace = true }\n\n[dependencies]\nbevy = { workspace = true }\n";
    let manifest = parse_manifest(text).unwrap();
    assert_eq!(manifest.license, None);
    assert_eq!(manifest.dependencies, vec![("bevy".to_string(), DependencySpec::Inherited)]);
    assert_eq!(bevy_version_of(&manifest), None);
}

#[test]
fn malformed_manifest_is_rejected() {
    assert_eq!(parse_manifest("[package").unwrap_err(), ManifestError::Malformed);
    assert_eq!(parse_manifest("dependencies = 3\n").unwrap_err(), ManifestError::Malformed);
}
