use generate_assets::category::CategoryError;
use generate_assets::descriptor::DescriptorError;
use generate_assets::walk::{entry_kind, visit_dirs, Entry, EntryKind, Fault, WalkError};
use generate_assets::{parse_assets, AssetNode, Section};

fn descriptor(name: &str) -> String {
    format!("name = \"{}\"\nlink = \"https://example.com/{}\"\ndescription = \"d\"\n", name, name)
}

fn file(dir: &str, name: &str, text: Option<String>) -> Entry {
    Entry::File { name: name.to_string(), path: format!("{}/{}", dir, name), text }
}

fn directory(dir: &str, name: &str, config: Option<&str>, entries: Vec<Entry>) -> Entry {
    Entry::Directory {
        name: name.to_string(),
        path: format!("{}/{}", dir, name),
        config: config.map(String::from),
        entries,
    }
}

fn names(section: &Section) -> Vec<String> {
    section.content.iter().map(|n| n.name()).collect()
}

fn child_section<'a>(section: &'a Section, name: &str) -> &'a Section {
    for node in &section.content {
        if let AssetNode::Section(s) = node {
            if s.name == name {
                return s;
            }
        }
    }
    panic!("no section called {}", name);
}

#[test]
fn entries_are_classified() {
    assert_eq!(entry_kind(".git", true), EntryKind::Ignored);
    assert_eq!(entry_kind(".github", true), EntryKind::Ignored);
    assert_eq!(entry_kind(".git", false), EntryKind::Ignored);
    assert_eq!(entry_kind(".gitignore", true), EntryKind::Folder);
    assert_eq!(entry_kind("Tools", true), EntryKind::Folder);
    assert_eq!(entry_kind("a.toml", true), EntryKind::Folder);
    assert_eq!(entry_kind("a.toml", false), EntryKind::Descriptor);
    assert_eq!(entry_kind("a.b.toml", false), EntryKind::Descriptor);
    assert_eq!(entry_kind("_category.toml", false), EntryKind::Ignored);
    assert_eq!(entry_kind("a.png", false), EntryKind::Ignored);
    assert_eq!(entry_kind("a.TOML", false), EntryKind::Ignored);
    assert_eq!(entry_kind("README", false), EntryKind::Ignored);
    assert_eq!(entry_kind(".toml", false), EntryKind::Ignored);
    assert_eq!(entry_kind("toml", false), EntryKind::Ignored);
    assert_eq!(entry_kind("", false), EntryKind::Ignored);
}

#[test]
fn empty_directory_gives_the_bare_root() {
    let root = parse_assets(&vec![]).unwrap();
    assert_eq!(root.name, "Assets");
    assert_eq!(root.template, Some("assets.html".to_string()));
    assert_eq!(root.header, Some("Assets".to_string()));
    assert_eq!(root.order, None);
    assert!(!root.sort_order_reversed);
    assert!(root.content.is_empty());
}

#[test]
fn directory_with_only_its_configuration_is_an_empty_section() {
    let entries = vec![directory(
        "assets",
        "Empty",
        Some("order = 1\n"),
        vec![file("assets/Empty", "_category.toml", None)],
    )];
    let root = parse_assets(&entries).unwrap();
    assert_eq!(root.content.len(), 1);
    let empty = child_section(&root, "Empty");
    assert_eq!(empty.order, Some(1));
    assert!(!empty.sort_order_reversed);
    assert_eq!(empty.template, None);
    assert_eq!(empty.header, None);
    assert!(empty.content.is_empty());
}

#[test]
fn tree_follows_the_directories() {
    let entries = vec![
        directory("assets", ".git", None, vec![file("assets/.git", "x.toml", None)]),
        file("assets", "top.toml", Some(descriptor("top"))),
        file("assets", "README.md", None),
        directory(
            "assets",
            "Tools",
            Some("order = 2\nsort_order_reversed = true\n"),
            vec![
                file("assets/Tools", "_category.toml", Some("order = 2\n".to_string())),
                file("assets/Tools", "b.toml", Some(descriptor("b"))),
                directory("assets/Tools", "Deep", None, vec![file("assets/Tools/Deep", "c.toml", Some(descriptor("c")))]),
                file("assets/Tools", "a.toml", Some(descriptor("a"))),
            ],
        ),
    ];
    let root = parse_assets(&entries).unwrap();
    assert_eq!(names(&root), vec!["top", "Tools"]);
    match &root.content[0] {
        AssetNode::Asset(a) => {
            assert_eq!(a.link, "https://example.com/top");
            assert_eq!(a.original_path, Some("assets/top.toml".to_string()));
            assert_eq!(a.licenses, None);
            assert_eq!(a.bevy_versions, None);
        }
        AssetNode::Section(_) => panic!("a descriptor became a section"),
    }
    let tools = child_section(&root, "Tools");
    assert_eq!(tools.order, Some(2));
    assert!(tools.sort_order_reversed);
    assert_eq!(names(tools), vec!["b", "Deep", "a"]);
    let deep = child_section(tools, "Deep");
    assert_eq!(deep.order, None);
    assert_eq!(names(deep), vec!["c"]);
}

#[test]
fn another_order_of_entries_gives_the_same_children() {
    let one = vec![
        file("assets", "a.toml", Some(descriptor("a"))),
        directory("assets", "S", None, vec![]),
        file("assets", "b.toml", Some(descriptor("b"))),
    ];
    let other = vec![
        file("assets", "b.toml", Some(descriptor("b"))),
        file("assets", "a.toml", Some(descriptor("a"))),
        directory("assets", "S", None, vec![]),
    ];
    let mut first = names(&parse_assets(&one).unwrap());
    let mut second = names(&parse_assets(&other).unwrap());
    assert_eq!(first, vec!["a", "S", "b"]);
    assert_eq!(second, vec!["b", "a", "S"]);
    first.sort();
    second.sort();
    assert_eq!(first, second);
}

#[test]
fn walking_twice_gives_the_same_tree() {
    let entries = vec![
        file("assets", "a.toml", Some(descriptor("a"))),
        directory("assets", "S", Some("order = 5\n"), vec![file("assets/S", "b.toml", Some(descriptor("b")))]),
    ];
    let first = parse_assets(&entries).unwrap();
    let second = parse_assets(&entries).unwrap();
    assert_eq!(format!("{:?}", first), format!("{:?}", second));
}

#[test]
fn malformed_descriptor_stops_the_walk() {
    let entries = vec![
        file("assets", "a.toml", Some(descriptor("a"))),
        directory(
            "assets",
            "S",
            None,
            vec![file("assets/S", "bad.toml", Some("name = \"x\"\ncolour = 1\n".to_string()))],
        ),
        file("assets", "worse.toml", Some("=".to_string())),
    ];
    assert_eq!(
        parse_assets(&entries).unwrap_err(),
        WalkError {
            path: "assets/S/bad.toml".to_string(),
            fault: Fault::Descriptor(DescriptorError::UnknownField)
        }
    );
}

#[test]
fn malformed_configuration_stops_the_walk() {
    let entries = vec![directory("assets", "S", Some("order ="), vec![])];
    assert_eq!(
        parse_assets(&entries).unwrap_err(),
        WalkError { path: "assets/S".to_string(), fault: Fault::Category(CategoryError::Syntax) }
    );
}

#[test]
fn unread_descriptor_stops_the_walk() {
    let entries = vec![file("assets", "a.toml", None)];
    assert_eq!(
        parse_assets(&entries).unwrap_err(),
        WalkError { path: "assets/a.toml".to_string(), fault: Fault::Unread }
    );
}

#[test]
fn nodes_are_put_after_what_the_section_holds() {
    let mut section = parse_assets(&vec![file("assets", "a.toml", Some(descriptor("a")))]).unwrap();
    let more = vec![file("assets", "b.toml", Some(descriptor("b")))];
    assert_eq!(visit_dirs(&more, &mut section), Ok(()));
    assert_eq!(names(&section), vec!["a", "b"]);
    let bad = vec![
        file("assets", "c.toml", Some(descriptor("c"))),
        file("assets", "d.toml", Some("".to_string())),
    ];
    assert_eq!(
        visit_dirs(&bad, &mut section),
        Err(WalkError {
            path: "assets/d.toml".to_string(),
            fault: Fault::Descriptor(DescriptorError::MissingField)
        })
    );
    assert_eq!(names(&section), vec!["a", "b"]);
}

#[test]
fn another_order_below_a_directory_gives_the_same_section() {
    let one = vec![directory(
        "assets",
        "S",
        Some("order = 1\n"),
        vec![
            file("assets/S", "a.toml", Some(descriptor("a"))),
            file("assets/S", "b.toml", Some(descriptor("b"))),
            directory("assets/S", "T", None, vec![]),
        ],
    )];
    let other = vec![directory(
        "assets",
        "S",
        Some("order = 1\n"),
        vec![
            directory("assets/S", "T", None, vec![]),
            file("assets/S", "b.toml", Some(descriptor("b"))),
            file("assets/S", "a.toml", Some(descriptor("a"))),
        ],
    )];
    let first = parse_assets(&one).unwrap();
    let second = parse_assets(&other).unwrap();
    let mut left = names(child_section(&first, "S"));
    let mut right = names(child_section(&second, "S"));
    assert_eq!(left, vec!["a", "b", "T"]);
    assert_eq!(right, vec!["T", "b", "a"]);
    left.sort();
    right.sort();
    assert_eq!(left, right);
    assert_eq!(child_section(&first, "S").order, child_section(&second, "S").order);
}

#[test]
fn failure_does_not_depend_on_the_order() {
    let good = file("assets", "a.toml", Some(descriptor("a")));
    let bad = file("assets", "b.toml", Some("name = 1\n".to_string()));
    let again = file("assets", "a.toml", Some(descriptor("a")));
    let bad_again = file("assets", "b.toml", Some("name = 1\n".to_string()));
    assert!(parse_assets(&vec![good, bad]).is_err());
    assert!(parse_assets(&vec![bad_again, again]).is_err());
}
