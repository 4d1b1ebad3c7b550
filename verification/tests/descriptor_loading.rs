use generate_assets::descriptor::{load_descriptor, DescriptorError};

const MINIMAL: &str = "name = \"A\"\nlink = \"https://example.com/x\"\ndescription = \"d\"\n";

#[test]
fn minimal_descriptor_loads() {
    let asset = load_descriptor(MINIMAL, "dir/a.toml").unwrap();
    assert_eq!(asset.name, "A");
    assert_eq!(asset.link, "https://example.com/x");
    assert_eq!(asset.description, "d");
    assert_eq!(asset.order, None);
    assert_eq!(asset.image, None);
    assert_eq!(asset.licenses, None);
    assert_eq!(asset.bevy_versions, None);
    assert_eq!(asset.original_path, Some("dir/a.toml".to_string()));
}

#[test]
fn full_descriptor_loads() {
    let text = format!(
        "{}order = 3\nimage = \"a.png\"\nlicenses = [\"MIT\", \"Zlib\"]\nbevy_versions = [\"0.10\"]\n",
        MINIMAL
    );
    let asset = load_descriptor(&text, "a.toml").unwrap();
    assert_eq!(asset.order, Some(3));
    assert_eq!(asset.image, Some("a.png".to_string()));
    assert_eq!(asset.licenses, Some(vec!["MIT".to_string(), "Zlib".to_string()]));
    assert_eq!(asset.bevy_versions, Some(vec!["0.10".to_string()]));
}

#[test]
fn unknown_field_is_rejected() {
    let text = format!("{}colour = \"red\"\n", MINIMAL);
    assert_eq!(load_descriptor(&text, "a.toml").unwrap_err(), DescriptorError::UnknownField);
}

#[test]
fn provenance_is_no_descriptor_field() {
    let text = format!("{}original_path = \"x\"\n", MINIMAL);
    assert_eq!(load_descriptor(&text, "a.toml").unwrap_err(), DescriptorError::UnknownField);
}

#[test]
fn missing_required_field_is_rejected() {
    let text = "name = \"A\"\nlink = \"https://example.com/x\"\n";
    assert_eq!(load_descriptor(text, "a.toml").unwrap_err(), DescriptorError::MissingField);
}

#[test]
fn wrong_type_is_rejected() {
    let text = format!("{}order = \"first\"\n", MINIMAL);
    assert_eq!(load_descriptor(&text, "a.toml").unwrap_err(), DescriptorError::WrongType);
    let text = format!("{}order = -1\n", MINIMAL);
    assert_eq!(load_descriptor(&text, "a.toml").unwrap_err(), DescriptorError::WrongType);
    let text = format!("{}licenses = \"MIT\"\n", MINIMAL);
    assert_eq!(load_descriptor(&text, "a.toml").unwrap_err(), DescriptorError::WrongType);
}

#[test]
fn malformed_text_is_rejected() {
    assert_eq!(load_descriptor("name = ", "a.toml").unwrap_err(), DescriptorError::Syntax);
}
