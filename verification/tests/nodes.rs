use generate_assets::catalog::UNORDERED;
use generate_assets::{Asset, AssetNode, Section};

fn asset(name: &str, order: Option<usize>) -> Asset {
    Asset {
        name: name.to_string(),
        link: "https://example.com/x".to_string(),
        description: "d".to_string(),
        order,
        image: None,
        licenses: None,
        bevy_versions: None,
        original_path: None,
    }
}

fn section(name: &str, order: Option<usize>) -> Section {
    Section {
        name: name.to_string(),
        content: vec![],
        template: None,
        header: None,
        order,
        sort_order_reversed: false,
    }
}

#[test]
fn name_of_either_variant() {
    assert_eq!(AssetNode::Asset(asset("a", None)).name(), "a");
    assert_eq!(AssetNode::Section(section("s", None)).name(), "s");
}

#[test]
fn declared_order_is_returned() {
    assert_eq!(AssetNode::Asset(asset("a", Some(3))).order(), 3);
    assert_eq!(AssetNode::Section(section("s", Some(0))).order(), 0);
}

#[test]
fn missing_order_sorts_last() {
    assert_eq!(UNORDERED, 99999);
    assert_eq!(AssetNode::Asset(asset("a", None)).order(), 99999);
    assert_eq!(AssetNode::Section(section("s", None)).order(), 99999);
}

#[test]
fn set_license_replaces_the_licenses() {
    let mut a = asset("a", Some(1));
    a.licenses = Some(vec!["Zlib".to_string()]);
    a.set_license("MIT OR Apache-2.0");
    assert_eq!(a.licenses, Some(vec!["MIT".to_string(), "Apache-2.0".to_string()]));
    assert_eq!(a.name, "a");
    assert_eq!(a.order, Some(1));
    assert_eq!(a.bevy_versions, None);
}

#[test]
fn clone_copies_the_whole_tree() {
    let mut inner = section("inner", Some(2));
    inner.content.push(AssetNode::Asset(asset("a", Some(1))));
    let mut outer = section("outer", None);
    outer.sort_order_reversed = true;
    outer.content.push(AssetNode::Section(inner));
    let copy = outer.clone();
    assert_eq!(copy.name, "outer");
    assert!(copy.sort_order_reversed);
    assert_eq!(copy.content.len(), 1);
    match &copy.content[0] {
        AssetNode::Section(s) => {
            assert_eq!(s.name, "inner");
            assert_eq!(s.order, Some(2));
            assert_eq!(s.content.len(), 1);
            assert_eq!(s.content[0].name(), "a");
            assert_eq!(s.content[0].order(), 1);
        }
        AssetNode::Asset(_) => panic!("a section was cloned into an asset"),
    }
}
