use generate_assets::license::parse_license;

#[test]
fn two_licenses_joined_by_or() {
    assert_eq!(parse_license("MIT OR Apache-2.0"), vec!["MIT", "Apache-2.0"]);
}

#[test]
fn single_license() {
    assert_eq!(parse_license("MIT"), vec!["MIT"]);
}

#[test]
fn repeated_license_is_kept_twice() {
    assert_eq!(parse_license("  MIT   OR   MIT "), vec!["MIT", "MIT"]);
}

#[test]
fn empty_expression_has_one_empty_identifier() {
    assert_eq!(parse_license(""), vec![""]);
}

#[test]
fn lower_case_or_does_not_split() {
    assert_eq!(parse_license("MIT or Apache-2.0"), vec!["MIT or Apache-2.0"]);
}

#[test]
fn or_inside_a_word_splits_too() {
    assert_eq!(parse_license("FOREST"), vec!["F", "EST"]);
}

#[test]
fn separators_do_not_overlap() {
    assert_eq!(parse_license("OOR"), vec!["O", ""]);
    assert_eq!(parse_license("OROR"), vec!["", "", ""]);
}

#[test]
fn identifiers_joined_again_give_the_expression() {
    for expression in ["MIT", "MIT OR Zlib", "OROR", "xORy ORz", ""] {
        let joined = parse_license(expression).join("OR");
        let bare: String = expression.split("OR").map(|p| p.trim()).collect::<Vec<_>>().join("OR");
        assert_eq!(joined, bare);
    }
}
