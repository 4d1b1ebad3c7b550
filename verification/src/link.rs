use crate::catalog::{list_view, text_view};
use crate::text::same_text;
use vstd::prelude::*;

verus! {

/// What the catalog reads of a link: its host, and the segments of its
/// path where the link has a path made of segments.
#[derive(Debug, PartialEq, Eq)]
pub struct LinkParts {
    pub host: Option<String>,
    pub segments: Option<Vec<String>>,
}

/// What a `LinkParts` holds, as mathematical values.
pub ghost struct LinkView {
    pub host: Option<Seq<char>>,
    pub segments: Option<Seq<Seq<char>>>,
}

impl View for LinkParts {
    type V = LinkView;

    open spec fn view(&self) -> LinkView {
        LinkView { host: text_view(self.host), segments: list_view(self.segments) }
    }
}

/// Where the metadata of an asset is to be had.
#[derive(Debug, PartialEq, Eq)]
pub enum Source {
    /// The repository `owner/repository` on the code host.
    CodeHost { owner: String, repository: String },
    /// The package `package` in the registry.
    Registry { package: String },
    /// Nowhere: the host is not one the catalog knows, or nobody is there to ask.
    Nowhere,
}

/// What a `Source` holds, as mathematical values.
pub ghost enum SourceView {
    CodeHost { owner: Seq<char>, repository: Seq<char> },
    Registry { package: Seq<char> },
    Nowhere,
}

impl View for Source {
    type V = SourceView;

    open spec fn view(&self) -> SourceView {
        match *self {
            Source::CodeHost { owner, repository } => SourceView::CodeHost {
                owner: owner@,
                repository: repository@,
            },
            Source::Registry { package } => SourceView::Registry { package: package@ },
            Source::Nowhere => SourceView::Nowhere,
        }
    }
}

/// Why no source could be chosen for a link.
#[derive(Debug, Clone, Copy, PartialEq, Eq, Structural)]
pub enum LinkError {
    /// The link is not a URL.
    Malformed,
    /// The link names a known host but not the two path segments that say what to ask it for.
    PathTooShort,
}

/// The error of the URL parser; nothing is read from it.
#[verifier::external_type_specification]
#[verifier::external_body]
pub struct ExUrlParseError(url::ParseError);

/// The host and path segments that the URL parser reads from `link`, or
/// `None` where it rejects the link.
pub uninterp spec fn parsed_link(link: Seq<char>) -> Option<LinkView>;

/// Parses `link` with `url::Url::parse` and hands out what `host_str` and
/// `path_segments` return for it. Nothing is claimed of the parser but that
/// what it returns depends on the link alone.
#[verifier::external_body]
pub(crate) fn read_link(link: &str) -> (r: Result<LinkParts, url::ParseError>)
    ensures
        match r {
            Ok(parts) => parsed_link(link@) == Some(parts@),
            Err(_) => parsed_link(link@) is None,
        },
{
    let url = url::Url::parse(link)?;
    Ok(LinkParts {
        host: url.host_str().map(String::from),
        segments: url.path_segments().map(|s| s.map(String::from).collect()),
    })
}

/// Whether the link is on the code host and there is a client to ask it.
pub open spec fn asks_code_host(parts: LinkView, code_host: bool) -> bool {
    parts.host == Some("github.com"@) && code_host
}

/// Whether the link is on the package registry and there is a copy of the registry to ask.
pub open spec fn asks_registry(parts: LinkView, registry: bool) -> bool {
    parts.host == Some("crates.io"@) && registry
}

/// Whether the link has the two path segments that a question to its host needs, if one is to be asked.
pub open spec fn addressable(parts: LinkView, code_host: bool, registry: bool) -> bool {
    asks_code_host(parts, code_host) || asks_registry(parts, registry) ==> parts.segments is Some
        && parts.segments->0.len() >= 2
}

/// The source for a link: the repository named by the first two path
/// segments where the link is on the code host and `code_host` says there is
/// a client for it; the package named by the second path segment where the
/// link is on the registry and `registry` says there is a copy of it;
/// nowhere otherwise.
pub open spec fn source_of(parts: LinkView, code_host: bool, registry: bool) -> SourceView {
    if asks_code_host(parts, code_host) {
        SourceView::CodeHost { owner: parts.segments->0[0], repository: parts.segments->0[1] }
    } else if asks_registry(parts, registry) {
        SourceView::Registry { package: parts.segments->0[1] }
    } else {
        SourceView::Nowhere
    }
}

/// The source for `link`, or why there is none.
pub open spec fn link_source(link: Seq<char>, code_host: bool, registry: bool) -> Result<
    SourceView,
    LinkError,
> {
    match parsed_link(link) {
        None => Err(LinkError::Malformed),
        Some(parts) => if addressable(parts, code_host, registry) {
            Ok(source_of(parts, code_host, registry))
        } else {
            Err(LinkError::PathTooShort)
        },
    }
}

/// Whether the host of `parts` is `host`.
pub fn host_is(parts: &LinkParts, host: &str) -> (r: bool)
    ensures
        r == (parts@.host == Some(host@)),
{
    match &parts.host {
        Some(h) => same_text(h.as_str(), host),
        None => false,
    }
}

/// Decides `addressable`.
pub fn is_addressable(parts: &LinkParts, code_host: bool, registry: bool) -> (r: bool)
    ensures
        r == addressable(parts@, code_host, registry),
{
    if (code_host && host_is(parts, "github.com")) || (registry && host_is(parts, "crates.io")) {
        match &parts.segments {
            Some(s) => {
                proof {
                    assert(s.deep_view().len() == s@.len());
                }
                s.len() >= 2
            },
            None => false,
        }
    } else {
        true
    }
}

/// Chooses the source for a link whose host and path segments are `parts`.
pub fn select_source(parts: &LinkParts, code_host: bool, registry: bool) -> (r: Source)
    requires
        addressable(parts@, code_host, registry),
    ensures
        r@ == source_of(parts@, code_host, registry),
{
    if code_host && host_is(parts, "github.com") {
        match &parts.segments {
            Some(s) => {
                proof {
                    assert(s.deep_view().len() == s@.len());
                    assert(s.deep_view()[0] == s@[0]@);
                    assert(s.deep_view()[1] == s@[1]@);
                }
                Source::CodeHost { owner: s[0].clone(), repository: s[1].clone() }
            },
            None => Source::Nowhere,
        }
    } else if registry && host_is(parts, "crates.io") {
        match &parts.segments {
            Some(s) => {
                proof {
                    assert(s.deep_view().len() == s@.len());
                    assert(s.deep_view()[1] == s@[1]@);
                }
                Source::Registry { package: s[1].clone() }
            },
            None => Source::Nowhere,
        }
    } else {
        Source::Nowhere
    }
}

/// Chooses the source for `link`. `code_host` and `registry` say whether
/// there is a client for the code host and a copy of the registry.
pub fn source_for(link: &str, code_host: bool, registry: bool) -> (r: Result<Source, LinkError>)
    ensures
        match r {
            Ok(source) => link_source(link@, code_host, registry) == Ok::<SourceView, LinkError>(
                source@,
            ),
            Err(e) => link_source(link@, code_host, registry) == Err::<SourceView, LinkError>(e),
        },
{
    match read_link(link) {
        Err(_) => Err(LinkError::Malformed),
        Ok(parts) => {
            if is_addressable(&parts, code_host, registry) {
                Ok(select_source(&parts, code_host, registry))
            } else {
                Err(LinkError::PathTooShort)
            }
        },
    }
}

/// A link on a host that is neither the code host nor the registry has no
/// source, whoever is there to ask; and no link has one where nobody is.
pub proof fn lemma_unrecognized_host_has_no_source(parts: LinkView, code_host: bool, registry: bool)
    requires
        parts.host != Some("github.com"@) && parts.host != Some("crates.io"@) || !code_host
            && !registry,
    ensures
        addressable(parts, code_host, registry),
        source_of(parts, code_host, registry) == SourceView::Nowhere,
{
}

} // verus!
