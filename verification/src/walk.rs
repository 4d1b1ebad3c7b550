use crate::catalog::{text_view, Asset, AssetNode, NodeView, Section, SectionView};
use crate::category::{configured, load_category, CategoryError};
use crate::descriptor::{load_descriptor, loaded, DescriptorError};
use crate::text::{chars_of, has_suffix, same_text};
use vstd::prelude::*;

verus! {

/// One entry of a directory, as it was found on disk.
#[derive(Debug)]
pub enum Entry {
    /// A directory: its name, its path, what its configuration file holds
    /// if it has one, and its entries.
    Directory { name: String, path: String, config: Option<String>, entries: Vec<Entry> },
    /// A file: its name, its path, and what it holds if it was read.
    File { name: String, path: String, text: Option<String> },
}

/// What an `Entry` holds, as mathematical values.
pub ghost enum EntryView {
    Directory { name: Seq<char>, path: Seq<char>, config: Option<Seq<char>>, entries: Seq<EntryView> },
    File { name: Seq<char>, path: Seq<char>, text: Option<Seq<char>> },
}

/// The view of an entry: its own fields and the views of the entries below it.
pub open spec fn entry_view(e: Entry) -> EntryView
    decreases e,
{
    match e {
        Entry::Directory { name, path, config, entries } => EntryView::Directory {
            name: name@,
            path: path@,
            config: text_view(config),
            entries: Seq::new(
                entries@.len(),
                |i: int|
                    if 0 <= i < entries.len() {
                        entry_view(entries[i])
                    } else {
                        arbitrary()
                    },
            ),
        },
        Entry::File { name, path, text } => EntryView::File {
            name: name@,
            path: path@,
            text: text_view(text),
        },
    }
}

impl View for Entry {
    type V = EntryView;

    open spec fn view(&self) -> EntryView {
        entry_view(*self)
    }
}

/// The views of a list of entries.
pub open spec fn entries_view(entries: Seq<Entry>) -> Seq<EntryView> {
    Seq::new(entries.len(), |i: int| entries[i]@)
}

impl EntryView {
    /// The name of the file or directory.
    pub open spec fn name(self) -> Seq<char> {
        match self {
            EntryView::Directory { name, .. } => name,
            EntryView::File { name, .. } => name,
        }
    }
}

/// What the walk does with an entry.
#[derive(Debug, Clone, Copy, PartialEq, Eq, Structural)]
pub enum EntryKind {
    /// It is passed over.
    Ignored,
    /// It becomes a section.
    Folder,
    /// It is loaded as the descriptor of an asset.
    Descriptor,
}

/// What went wrong with an entry.
#[derive(Debug, Clone, Copy, PartialEq, Eq)]
pub enum Fault {
    /// The configuration file of the directory could not be loaded.
    Category(CategoryError),
    /// The descriptor could not be loaded.
    Descriptor(DescriptorError),
    /// The descriptor was not read.
    Unread,
}

/// Why a walk failed: the path of the entry that stopped it, and what went wrong with it.
#[derive(Debug, PartialEq, Eq)]
pub struct WalkError {
    pub path: String,
    pub fault: Fault,
}

/// What a `WalkError` holds, as mathematical values.
pub ghost struct WalkErrorView {
    pub path: Seq<char>,
    pub fault: Fault,
}

impl View for WalkError {
    type V = WalkErrorView;

    open spec fn view(&self) -> WalkErrorView {
        WalkErrorView { path: self.path@, fault: self.fault }
    }
}

/// Whether `name` is that of a directory that version control or
/// continuous integration keeps for itself.
pub open spec fn housekeeping_name(name: Seq<char>) -> bool {
    name == ".git"@ || name == ".github"@
}

/// Whether `name` ends in the extension of a descriptor, after at least one other character.
pub open spec fn descriptor_name(name: Seq<char>) -> bool {
    name.len() > ".toml"@.len() && ".toml"@.is_suffix_of(name)
}

/// What the walk does with an entry called `name`, which is a directory or
/// not as `is_dir` says: housekeeping entries are passed over; any other
/// directory becomes a section; of the files, those with the extension of
/// a descriptor are loaded, but for the configuration file of a directory.
pub open spec fn kind_of(name: Seq<char>, is_dir: bool) -> EntryKind {
    if housekeeping_name(name) {
        EntryKind::Ignored
    } else if is_dir {
        EntryKind::Folder
    } else if name == "_category.toml"@ || !descriptor_name(name) {
        EntryKind::Ignored
    } else {
        EntryKind::Descriptor
    }
}

/// Computes `kind_of`.
pub fn entry_kind(name: &str, is_dir: bool) -> (r: EntryKind)
    ensures
        r == kind_of(name@, is_dir),
{
    if same_text(name, ".git") || same_text(name, ".github") {
        EntryKind::Ignored
    } else if is_dir {
        EntryKind::Folder
    } else if same_text(name, "_category.toml") {
        EntryKind::Ignored
    } else {
        let chars = chars_of(name);
        let suffix = chars_of(".toml");
        if chars.len() > suffix.len() && has_suffix(&chars, &suffix) {
            EntryKind::Descriptor
        } else {
            EntryKind::Ignored
        }
    }
}

/// The section that a directory called `name` becomes, with `content` below it.
pub open spec fn folder_section(
    name: Seq<char>,
    order: Option<usize>,
    sort_order_reversed: bool,
    content: Seq<NodeView>,
) -> SectionView {
    SectionView { name, content, template: None, header: None, order, sort_order_reversed }
}

/// The node that an entry becomes: none for an entry that is passed over,
/// a section for a directory, with its configuration and with the nodes of
/// its entries below it, and an asset for a descriptor.
pub open spec fn node_of(entry: EntryView) -> Result<Option<NodeView>, WalkErrorView>
    decreases entry, 0nat,
{
    match entry {
        EntryView::Directory { name, path, config, entries } => {
            if kind_of(name, true) == EntryKind::Ignored {
                Ok(None)
            } else {
                match configured(config) {
                    Err(reason) => Err(WalkErrorView { path, fault: Fault::Category(reason) }),
                    Ok(category) => match nodes_of(entries) {
                        Err(e) => Err(e),
                        Ok(content) => Ok(
                            Some(
                                NodeView::Section(
                                    folder_section(
                                        name,
                                        category.order,
                                        category.sort_order_reversed,
                                        content,
                                    ),
                                ),
                            ),
                        ),
                    },
                }
            }
        },
        EntryView::File { name, path, text } => {
            if kind_of(name, false) == EntryKind::Ignored {
                Ok(None)
            } else {
                match text {
                    None => Err(WalkErrorView { path, fault: Fault::Unread }),
                    Some(t) => match loaded(t, path) {
                        Err(reason) => Err(WalkErrorView { path, fault: Fault::Descriptor(reason) }),
                        Ok(asset) => Ok(Some(NodeView::Asset(asset))),
                    },
                }
            }
        },
    }
}

/// The nodes that a list of entries becomes, in the order of the entries;
/// the first entry that fails makes the whole list fail.
pub open spec fn nodes_of(entries: Seq<EntryView>) -> Result<Seq<NodeView>, WalkErrorView>
    decreases entries, 1nat,
{
    if entries.len() == 0 {
        Ok(Seq::empty())
    } else {
        match nodes_of(entries.drop_last()) {
            Err(e) => Err(e),
            Ok(before) => match node_of(entries.last()) {
                Err(e) => Err(e),
                Ok(None) => Ok(before),
                Ok(Some(node)) => Ok(before.push(node)),
            },
        }
    }
}

/// The views of a list of nodes.
pub open spec fn nodes_view(nodes: Seq<AssetNode>) -> Seq<NodeView> {
    Seq::new(nodes.len(), |i: int| nodes[i]@)
}

/// Once the front of a list of entries fails, the whole list fails in the same way.
pub proof fn lemma_failure_persists(entries: Seq<EntryView>, i: int)
    requires
        0 <= i <= entries.len(),
        nodes_of(entries.take(i)) is Err,
    ensures
        nodes_of(entries) == nodes_of(entries.take(i)),
    decreases entries.len() - i,
{
    if i == entries.len() {
        assert(entries.take(i) == entries);
    } else {
        assert(entries.take(i + 1).drop_last() == entries.take(i));
        lemma_failure_persists(entries, i + 1);
    }
}

/// The catalog's root section before anything is put below it.
pub open spec fn empty_root() -> SectionView {
    SectionView {
        name: "Assets"@,
        content: Seq::empty(),
        template: Some("assets.html"@),
        header: Some("Assets"@),
        order: None,
        sort_order_reversed: false,
    }
}

/// The catalog that a directory with the entries `entries` becomes.
pub open spec fn tree_of(entries: Seq<EntryView>) -> Result<SectionView, WalkErrorView> {
    match nodes_of(entries) {
        Ok(content) => Ok(SectionView { content, ..empty_root() }),
        Err(e) => Err(e),
    }
}

/// A borrowed view of an optional string.
pub fn as_text(s: &Option<String>) -> (r: Option<&str>)
    ensures
        match r {
            Some(t) => text_view(*s) == Some(t@),
            None => text_view(*s) is None,
        },
{
    match s {
        Some(t) => Some(t.as_str()),
        None => None,
    }
}

/// Puts below `section`, after what it holds already, the nodes that
/// `entries` become. Where an entry fails, the section is left as it was.
pub fn visit_dirs(entries: &Vec<Entry>, section: &mut Section) -> (r: Result<(), WalkError>)
    ensures
        match nodes_of(entries_view(entries@)) {
            Ok(nodes) => r is Ok && final(section)@ == (SectionView {
                content: old(section)@.content + nodes,
                ..old(section)@
            }),
            Err(e) => r is Err && r->Err_0@ == e && final(section)@ == old(section)@,
        },
    decreases entries,
{
    let ghost all = entries_view(entries@);
    let mut nodes: Vec<AssetNode> = Vec::new();
    let mut i: usize = 0;
    proof {
        assert(all.take(0) == Seq::<EntryView>::empty());
        assert(nodes_view(nodes@) == Seq::<NodeView>::empty());
    }
    while i < entries.len()
        invariant
            i <= entries.len(),
            all == entries_view(entries@),
            nodes_of(all.take(i as int)) == Ok::<Seq<NodeView>, WalkErrorView>(nodes_view(nodes@)),
            *section == *old(section),
        decreases entries.len() - i,
    {
        let ghost before = nodes_view(nodes@);
        proof {
            assert(all.take(i + 1).drop_last() == all.take(i as int));
            assert(all.take(i + 1).last() == entries@[i as int]@);
        }
        match &entries[i] {
            Entry::Directory { name, path, config, entries: below } => {
                proof {
                    assert(entries@[i as int]@ matches EntryView::Directory { entries: e, .. }
                        && e == entries_view(below@));
                }
                match entry_kind(name.as_str(), true) {
                    EntryKind::Ignored => {},
                    _ => {
                        match load_category(as_text(config)) {
                            Err(reason) => {
                                proof {
                                    lemma_failure_persists(all, i + 1);
                                }
                                return Err(WalkError { path: path.clone(), fault: Fault::Category(reason) });
                            },
                            Ok(category) => {
                                let mut new_section = Section {
                                    name: name.clone(),
                                    content: Vec::new(),
                                    template: None,
                                    header: None,
                                    order: category.order,
                                    sort_order_reversed: category.sort_order_reversed,
                                };
                                proof {
                                    assert(new_section@.content == Seq::<NodeView>::empty());
                                }
                                match visit_dirs(below, &mut new_section) {
                                    Err(e) => {
                                        proof {
                                            lemma_failure_persists(all, i + 1);
                                        }
                                        return Err(e);
                                    },
                                    Ok(()) => {
                                        proof {
                                            let found = nodes_of(entries_view(below@))->Ok_0;
                                            assert(Seq::<NodeView>::empty() + found == found);
                                        }
                                        nodes.push(AssetNode::Section(new_section));
                                    },
                                }
                            },
                        }
                    },
                }
            },
            Entry::File { name, path, text } => {
                match entry_kind(name.as_str(), false) {
                    EntryKind::Ignored => {},
                    _ => {
                        match as_text(text) {
                            None => {
                                proof {
                                    lemma_failure_persists(all, i + 1);
                                }
                                return Err(WalkError { path: path.clone(), fault: Fault::Unread });
                            },
                            Some(t) => match load_descriptor(t, path.as_str()) {
                                Err(reason) => {
                                    proof {
                                        lemma_failure_persists(all, i + 1);
                                    }
                                    return Err(
                                        WalkError { path: path.clone(), fault: Fault::Descriptor(reason) },
                                    );
                                },
                                Ok(asset) => {
                                    nodes.push(AssetNode::Asset(asset));
                                },
                            },
                        }
                    },
                }
            },
        }
        i += 1;
        proof {
            let after = nodes_view(nodes@);
            match node_of(all[i - 1]) {
                Ok(Some(node)) => {
                    assert(after == before.push(node));
                },
                _ => {
                    assert(after == before);
                },
            }
        }
    }
    proof {
        assert(all.take(entries.len() as int) == all);
    }
    let ghost found = nodes_view(nodes@);
    section.content.append(&mut nodes);
    proof {
        assert(section@.content == old(section)@.content + found);
    }
    Ok(())
}

/// Builds the catalog from the entries of the directory that holds it:
/// the root section, with the nodes that the entries become below it.
pub fn parse_assets(entries: &Vec<Entry>) -> (r: Result<Section, WalkError>)
    ensures
        match r {
            Ok(root) => tree_of(entries_view(entries@)) == Ok::<SectionView, WalkErrorView>(root@),
            Err(e) => tree_of(entries_view(entries@)) == Err::<SectionView, WalkErrorView>(e@),
        },
{
    let mut asset_root_section = Section {
        name: "Assets".to_owned(),
        content: Vec::new(),
        template: Some("assets.html".to_owned()),
        header: Some("Assets".to_owned()),
        order: None,
        sort_order_reversed: false,
    };
    proof {
        assert(asset_root_section@.content == Seq::<NodeView>::empty());
    }
    match visit_dirs(entries, &mut asset_root_section) {
        Ok(()) => {
            proof {
                let found = nodes_of(entries_view(entries@))->Ok_0;
                assert(Seq::<NodeView>::empty() + found == found);
            }
            Ok(asset_root_section)
        },
        Err(e) => Err(e),
    }
}

impl EntryView {
    /// Whether the walk passes over the entry.
    pub open spec fn ignored(self) -> bool {
        kind_of(self.name(), self is Directory) == EntryKind::Ignored
    }
}

/// Entries that are all passed over become no nodes.
pub proof fn lemma_ignored_entries_leave_nothing(entries: Seq<EntryView>)
    requires
        forall|i: int| 0 <= i < entries.len() ==> (#[trigger] entries[i]).ignored(),
    ensures
        nodes_of(entries) == Ok::<Seq<NodeView>, WalkErrorView>(Seq::empty()),
    decreases entries.len(),
{
    if entries.len() > 0 {
        let front = entries.drop_last();
        assert forall|i: int| 0 <= i < front.len() implies (#[trigger] front[i]).ignored() by {
            assert(front[i] == entries[i]);
        }
        lemma_ignored_entries_leave_nothing(front);
        assert(entries.last() == entries[entries.len() - 1]);
        assert(entries.last().ignored());
        assert(node_of(entries.last()) == Ok::<Option<NodeView>, WalkErrorView>(None)) by {
            match entries.last() {
                EntryView::Directory { .. } => {},
                EntryView::File { .. } => {},
            }
        }
    }
}

/// A directory that holds no descriptor and no directory to descend into
/// (only its configuration file, say) becomes a section with nothing in
/// it: it is neither left out nor an error.
pub proof fn lemma_directory_without_descriptors(
    name: Seq<char>,
    path: Seq<char>,
    config: Option<Seq<char>>,
    entries: Seq<EntryView>,
)
    requires
        !housekeeping_name(name),
        configured(config) is Ok,
        forall|i: int| 0 <= i < entries.len() ==> (#[trigger] entries[i]).ignored(),
    ensures
        node_of(EntryView::Directory { name, path, config, entries }) == Ok::<
            Option<NodeView>,
            WalkErrorView,
        >(
            Some(
                NodeView::Section(
                    folder_section(
                        name,
                        configured(config)->Ok_0.order,
                        configured(config)->Ok_0.sort_order_reversed,
                        Seq::empty(),
                    ),
                ),
            ),
        ),
{
    lemma_ignored_entries_leave_nothing(entries);
}

/// The configuration file of a directory is itself passed over.
pub proof fn lemma_configuration_file_is_ignored(path: Seq<char>, text: Option<Seq<char>>)
    ensures
        (EntryView::File { name: "_category.toml"@, path, text }).ignored(),
{
}

} // verus!
