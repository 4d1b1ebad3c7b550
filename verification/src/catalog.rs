use crate::license::{license_ids, parse_license};
use vstd::prelude::*;

verus! {

/// Order reported for a node that declares none, so that it sorts last.
pub const UNORDERED: usize = 99999;

/// One catalog entry.
#[derive(Debug)]
pub struct Asset {
    pub name: String,
    pub link: String,
    pub description: String,
    pub order: Option<usize>,
    pub image: Option<String>,
    pub licenses: Option<Vec<String>>,
    pub bevy_versions: Option<Vec<String>>,
    /// The descriptor file this entry was loaded from; not part of the descriptor.
    pub original_path: Option<String>,
}

/// A grouping node: one directory of the catalog.
#[derive(Debug)]
pub struct Section {
    pub name: String,
    pub content: Vec<AssetNode>,
    pub template: Option<String>,
    pub header: Option<String>,
    pub order: Option<usize>,
    pub sort_order_reversed: bool,
}

/// A node of the catalog tree.
#[derive(Debug)]
pub enum AssetNode {
    Section(Section),
    Asset(Asset),
}

/// What an `Asset` holds, as mathematical values.
pub ghost struct AssetView {
    pub name: Seq<char>,
    pub link: Seq<char>,
    pub description: Seq<char>,
    pub order: Option<usize>,
    pub image: Option<Seq<char>>,
    pub licenses: Option<Seq<Seq<char>>>,
    pub bevy_versions: Option<Seq<Seq<char>>>,
    pub original_path: Option<Seq<char>>,
}

/// What a `Section` holds, as mathematical values.
pub ghost struct SectionView {
    pub name: Seq<char>,
    pub content: Seq<NodeView>,
    pub template: Option<Seq<char>>,
    pub header: Option<Seq<char>>,
    pub order: Option<usize>,
    pub sort_order_reversed: bool,
}

/// What an `AssetNode` holds, as mathematical values.
pub ghost enum NodeView {
    Section(SectionView),
    Asset(AssetView),
}

/// The order a node sorts by: the declared one, or `UNORDERED`.
pub open spec fn effective_order(declared: Option<usize>) -> usize {
    match declared {
        Some(n) => n,
        None => UNORDERED,
    }
}

impl NodeView {
    /// The name of the section or asset.
    pub open spec fn name(self) -> Seq<char> {
        match self {
            NodeView::Section(s) => s.name,
            NodeView::Asset(a) => a.name,
        }
    }

    /// The order the section or asset declares, if any.
    pub open spec fn declared_order(self) -> Option<usize> {
        match self {
            NodeView::Section(s) => s.order,
            NodeView::Asset(a) => a.order,
        }
    }
}

/// The view of an optional string.
pub open spec fn text_view(s: Option<String>) -> Option<Seq<char>> {
    match s {
        Some(t) => Some(t@),
        None => None,
    }
}

/// The view of an optional list of strings.
pub open spec fn list_view(l: Option<Vec<String>>) -> Option<Seq<Seq<char>>> {
    match l {
        Some(v) => Some(v.deep_view()),
        None => None,
    }
}

impl View for Asset {
    type V = AssetView;

    open spec fn view(&self) -> AssetView {
        AssetView {
            name: self.name@,
            link: self.link@,
            description: self.description@,
            order: self.order,
            image: text_view(self.image),
            licenses: list_view(self.licenses),
            bevy_versions: list_view(self.bevy_versions),
            original_path: text_view(self.original_path),
        }
    }
}

/// The view of a section: its own fields and the views of its children.
pub open spec fn section_view(s: Section) -> SectionView
    decreases s,
{
    SectionView {
        name: s.name@,
        content: Seq::new(
            s.content@.len(),
            |i: int|
                if 0 <= i < s.content.len() {
                    node_view(s.content[i])
                } else {
                    arbitrary()
                },
        ),
        template: text_view(s.template),
        header: text_view(s.header),
        order: s.order,
        sort_order_reversed: s.sort_order_reversed,
    }
}

/// The view of a node.
pub open spec fn node_view(n: AssetNode) -> NodeView
    decreases n,
{
    match n {
        AssetNode::Section(s) => NodeView::Section(section_view(s)),
        AssetNode::Asset(a) => NodeView::Asset(a@),
    }
}

impl View for Section {
    type V = SectionView;

    open spec fn view(&self) -> SectionView {
        section_view(*self)
    }
}

impl View for AssetNode {
    type V = NodeView;

    open spec fn view(&self) -> NodeView {
        node_view(*self)
    }
}

/// A copy of an optional string.
pub fn copy_text(s: &Option<String>) -> (r: Option<String>)
    ensures
        text_view(r) == text_view(*s),
{
    match s {
        Some(t) => Some(t.clone()),
        None => None,
    }
}

/// A copy of an optional list of strings.
pub fn copy_list(l: &Option<Vec<String>>) -> (r: Option<Vec<String>>)
    ensures
        list_view(r) == list_view(*l),
{
    match l {
        Some(v) => {
            let mut out: Vec<String> = Vec::new();
            let mut i: usize = 0;
            while i < v.len()
                invariant
                    i <= v.len(),
                    out@.len() == i,
                    forall|k: int| 0 <= k < i ==> (#[trigger] out@[k])@ == v@[k]@,
                decreases v.len() - i,
            {
                out.push(v[i].clone());
                i += 1;
            }
            proof {
                assert(out.deep_view() =~= v.deep_view());
            }
            Some(out)
        },
        None => None,
    }
}

impl Clone for Asset {
    fn clone(&self) -> (r: Self)
        ensures
            r@ == self@,
    {
        Asset {
            name: self.name.clone(),
            link: self.link.clone(),
            description: self.description.clone(),
            order: self.order,
            image: copy_text(&self.image),
            licenses: copy_list(&self.licenses),
            bevy_versions: copy_list(&self.bevy_versions),
            original_path: copy_text(&self.original_path),
        }
    }
}

impl Section {
    /// A copy of the section and of everything below it.
    pub fn duplicate(&self) -> (r: Section)
        ensures
            r@ == self@,
        decreases self,
    {
        let mut content: Vec<AssetNode> = Vec::new();
        let mut i: usize = 0;
        while i < self.content.len()
            invariant
                i <= self.content.len(),
                content@.len() == i,
                forall|k: int| 0 <= k < i ==> (#[trigger] content@[k])@ == self.content@[k]@,
            decreases self.content.len() - i,
        {
            content.push(self.content[i].duplicate());
            i += 1;
        }
        let r = Section {
            name: self.name.clone(),
            content,
            template: copy_text(&self.template),
            header: copy_text(&self.header),
            order: self.order,
            sort_order_reversed: self.sort_order_reversed,
        };
        proof {
            assert(r@.content =~= self@.content);
        }
        r
    }
}

impl AssetNode {
    /// A copy of the node and of everything below it.
    pub fn duplicate(&self) -> (r: AssetNode)
        ensures
            r@ == self@,
        decreases self,
    {
        match self {
            AssetNode::Section(s) => AssetNode::Section(s.duplicate()),
            AssetNode::Asset(a) => AssetNode::Asset(a.clone()),
        }
    }
}

impl Clone for Section {
    fn clone(&self) -> (r: Self)
        ensures
            r@ == self@,
    {
        self.duplicate()
    }
}

impl Clone for AssetNode {
    fn clone(&self) -> (r: Self)
        ensures
            r@ == self@,
    {
        self.duplicate()
    }
}

impl Asset {
    /// Replaces the licenses by the identifiers that `license` names.
    pub fn set_license(&mut self, license: &str)
        ensures
            final(self)@ == (AssetView { licenses: Some(license_ids(license@)), ..old(self)@ }),
    {
        let licenses = parse_license(license);
        self.licenses = Some(licenses);
    }
}

impl AssetNode {
    /// The name of the section or asset.
    pub fn name(&self) -> (r: String)
        ensures
            r@ == self@.name(),
    {
        match self {
            AssetNode::Section(content) => content.name.clone(),
            AssetNode::Asset(content) => content.name.clone(),
        }
    }

    /// The order to sort by: the declared order, or `UNORDERED` where none is declared.
    pub fn order(&self) -> (r: usize)
        ensures
            r == effective_order(self@.declared_order()),
    {
        match self {
            AssetNode::Section(content) => match content.order {
                Some(n) => n,
                None => UNORDERED,
            },
            AssetNode::Asset(content) => match content.order {
                Some(n) => n,
                None => UNORDERED,
            },
        }
    }
}

} // verus!
