use generate_assets::link::{
    is_addressable, select_source, source_for, LinkError, LinkParts, Source,
};

#[test]
fn repository_on_the_code_host() {
    assert_eq!(
        source_for("https://github.com/bevyengine/bevy", true, true),
        Ok(Source::CodeHost { owner: "bevyengine".to_string(), repository: "bevy".to_string() })
    );
}

#[test]
fn further_segments_are_passed_over() {
    assert_eq!(
        source_for("https://github.com/bevyengine/bevy/tree/main/crates", true, false),
        Ok(Source::CodeHost { owner: "bevyengine".to_string(), repository: "bevy".to_string() })
    );
}

#[test]
fn package_in_the_registry() {
    assert_eq!(
        source_for("https://crates.io/crates/bevy_egui", true, true),
        Ok(Source::Registry { package: "bevy_egui".to_string() })
    );
}

#[test]
fn unrecognized_host_has_no_source() {
    assert_eq!(source_for("https://example.com/x", true, true), Ok(Source::Nowhere));
    assert_eq!(source_for("https://gitlab.com/a/b", true, true), Ok(Source::Nowhere));
    assert_eq!(source_for("https://www.github.com/a/b", true, true), Ok(Source::Nowhere));
    assert_eq!(source_for("mailto:someone@example.com", true, true), Ok(Source::Nowhere));
}

#[test]
fn nobody_to_ask_means_no_source() {
    assert_eq!(source_for("https://github.com/bevyengine/bevy", false, true), Ok(Source::Nowhere));
    assert_eq!(source_for("https://crates.io/crates/bevy_egui", true, false), Ok(Source::Nowhere));
    assert_eq!(source_for("https://github.com/bevyengine", false, false), Ok(Source::Nowhere));
}

#[test]
fn malformed_link_is_an_error() {
    assert_eq!(source_for("not a link", true, true), Err(LinkError::Malformed));
    assert_eq!(source_for("", false, false), Err(LinkError::Malformed));
}

#[test]
fn short_path_is_an_error() {
    assert_eq!(source_for("https://github.com/bevyengine", true, true), Err(LinkError::PathTooShort));
    assert_eq!(source_for("https://crates.io", true, true), Err(LinkError::PathTooShort));
}

#[test]
fn parts_are_dispatched_by_host() {
    let parts = LinkParts {
        host: Some("crates.io".to_string()),
        segments: Some(vec!["crates".to_string(), "bevy_rapier".to_string()]),
    };
    assert!(is_addressable(&parts, true, true));
    assert_eq!(
        select_source(&parts, true, true),
        Source::Registry { package: "bevy_rapier".to_string() }
    );
    let short = LinkParts { host: Some("github.com".to_string()), segments: None };
    assert!(!is_addressable(&short, true, false));
    assert!(is_addressable(&short, false, true));
}
