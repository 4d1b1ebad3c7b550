use vstd::prelude::*;

verus! {

/// One project found by a search: what is needed to ask for its files.
#[derive(Debug, PartialEq, Eq)]
pub struct GitlabProjectSearchResult {
    pub id: usize,
    pub default_branch: String,
}

} // verus!
