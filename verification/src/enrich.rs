use crate::catalog::{list_view, text_view, Asset, AssetView};
use crate::license::license_ids;
use crate::link::{
    lemma_unrecognized_host_has_no_source, link_source, parsed_link, source_for, LinkError, Source,
    SourceView,
};
use crate::manifest::{
    bevy_version_of, cargo_manifest, framework_version, parse_manifest, Manifest, ManifestView,
};
use crate::text::{chars_of, remove_char, text_of, without};
use vstd::prelude::*;

verus! {

/// What is to be fetched next for an asset. The request that is open is
/// all there is to the state of an enrichment.
#[derive(Debug, PartialEq, Eq)]
pub enum Request {
    /// Nothing: the enrichment has ended.
    Nothing,
    /// The file `path` of a repository on the code host.
    Content { owner: String, repository: String, path: String },
    /// The license of a repository on the code host.
    RepositoryLicense { owner: String, repository: String },
    /// The registry's records of `package` as a dependent of `framework`.
    ReverseDependencies { package: String, framework: String },
}

/// What a `Request` holds, as mathematical values.
pub ghost enum RequestView {
    Nothing,
    Content { owner: Seq<char>, repository: Seq<char>, path: Seq<char> },
    RepositoryLicense { owner: Seq<char>, repository: Seq<char> },
    ReverseDependencies { package: Seq<char>, framework: Seq<char> },
}

impl View for Request {
    type V = RequestView;

    open spec fn view(&self) -> RequestView {
        match *self {
            Request::Nothing => RequestView::Nothing,
            Request::Content { owner, repository, path } => RequestView::Content {
                owner: owner@,
                repository: repository@,
                path: path@,
            },
            Request::RepositoryLicense { owner, repository } => RequestView::RepositoryLicense {
                owner: owner@,
                repository: repository@,
            },
            Request::ReverseDependencies { package, framework } => RequestView::ReverseDependencies {
                package: package@,
                framework: framework@,
            },
        }
    }
}

/// One record of the registry: the license of a published version, and the
/// version requirements of its dependencies on the framework where they
/// could be read.
#[derive(Debug, PartialEq, Eq)]
pub struct RegistryRecord {
    pub license: String,
    pub versions: Option<Vec<String>>,
}

/// What a `RegistryRecord` holds, as mathematical values.
pub ghost struct RecordView {
    pub license: Seq<char>,
    pub versions: Option<Seq<Seq<char>>>,
}

impl View for RegistryRecord {
    type V = RecordView;

    open spec fn view(&self) -> RecordView {
        RecordView { license: self.license@, versions: list_view(self.versions) }
    }
}

/// The view of a record that may have failed to load.
pub open spec fn record_view(r: Option<RegistryRecord>) -> Option<RecordView> {
    match r {
        Some(record) => Some(record@),
        None => None,
    }
}

/// The views of a list of records.
pub open spec fn records_view(records: Seq<Option<RegistryRecord>>) -> Seq<Option<RecordView>> {
    Seq::new(records.len(), |i: int| record_view(records[i]))
}

/// What came back for a request; `None` inside says that fetching failed.
#[derive(Debug, PartialEq, Eq)]
pub enum Reply {
    /// The text of the file asked for.
    Content(Option<String>),
    /// The license identifier of the repository.
    License(Option<String>),
    /// The records found, each of which may have failed to load.
    Records(Option<Vec<Option<RegistryRecord>>>),
}

/// What a `Reply` holds, as mathematical values.
pub ghost enum ReplyView {
    Content(Option<Seq<char>>),
    License(Option<Seq<char>>),
    Records(Option<Seq<Option<RecordView>>>),
}

impl View for Reply {
    type V = ReplyView;

    open spec fn view(&self) -> ReplyView {
        match *self {
            Reply::Content(t) => ReplyView::Content(text_view(t)),
            Reply::License(t) => ReplyView::License(text_view(t)),
            Reply::Records(r) => ReplyView::Records(
                match r {
                    Some(records) => Some(records_view(records@)),
                    None => None,
                },
            ),
        }
    }
}

/// The request that opens the enrichment from `source`.
pub open spec fn first_request(source: SourceView) -> RequestView {
    match source {
        SourceView::CodeHost { owner, repository } => RequestView::Content {
            owner,
            repository,
            path: "Cargo.toml"@,
        },
        SourceView::Registry { package } => RequestView::ReverseDependencies {
            package,
            framework: "bevy"@,
        },
        SourceView::Nowhere => RequestView::Nothing,
    }
}

/// `asset` with the licenses that the expression `license` names.
pub open spec fn with_license(asset: AssetView, license: Seq<char>) -> AssetView {
    AssetView { licenses: Some(license_ids(license)), ..asset }
}

/// `asset` with `version` as its one framework version, where there is one.
pub open spec fn with_version(asset: AssetView, version: Option<Seq<char>>) -> AssetView {
    match version {
        Some(v) => AssetView { bevy_versions: Some(seq![v]), ..asset },
        None => asset,
    }
}

/// The asset after a manifest has been read for it, and what is to be
/// fetched next: the framework version is taken from the manifest; the
/// license too where the manifest gives one, and else the code host is asked
/// for the license of the repository.
pub open spec fn after_manifest(
    asset: AssetView,
    manifest: ManifestView,
    owner: Seq<char>,
    repository: Seq<char>,
) -> (AssetView, RequestView) {
    let versioned = with_version(asset, framework_version(manifest));
    match manifest.license {
        Some(license) => (with_license(versioned, license), RequestView::Nothing),
        None => (versioned, RequestView::RepositoryLicense { owner, repository }),
    }
}

/// The asset after one record of the registry: the record's license
/// replaces the licenses, and the first of its version requirements, without
/// any `^`, replaces the framework versions where the record has one.
pub open spec fn after_record(asset: AssetView, record: RecordView) -> AssetView {
    let licensed = with_license(asset, record.license);
    match record.versions {
        Some(versions) => if versions.len() > 0 {
            with_version(licensed, Some(without(versions[0], '^')))
        } else {
            licensed
        },
        None => licensed,
    }
}

/// The asset after the records of the registry, taken in order; a record
/// that failed to load changes nothing.
pub open spec fn after_records(asset: AssetView, records: Seq<Option<RecordView>>) -> AssetView
    decreases records.len(),
{
    if records.len() == 0 {
        asset
    } else {
        let before = after_records(asset, records.drop_last());
        match records.last() {
            Some(record) => after_record(before, record),
            None => before,
        }
    }
}

/// The asset after `reply` has come for the request `open`, and what is to
/// be fetched next. A reply that says fetching failed, one of another kind
/// than was asked for, and a manifest that cannot be read end the enrichment
/// and leave the asset as it is.
pub open spec fn step(asset: AssetView, open: RequestView, reply: ReplyView) -> (
    AssetView,
    RequestView,
) {
    match (open, reply) {
        (RequestView::Content { owner, repository, path }, ReplyView::Content(Some(text))) => {
            match cargo_manifest(text) {
                Some(manifest) => after_manifest(asset, manifest, owner, repository),
                None => (asset, RequestView::Nothing),
            }
        },
        (RequestView::RepositoryLicense { .. }, ReplyView::License(Some(license))) => (
            with_license(asset, license),
            RequestView::Nothing,
        ),
        (RequestView::ReverseDependencies { .. }, ReplyView::Records(Some(records))) => (
            after_records(asset, records),
            RequestView::Nothing,
        ),
        _ => (asset, RequestView::Nothing),
    }
}

/// Sets the one framework version of `asset`, where there is one.
pub fn set_version(asset: &mut Asset, version: Option<String>)
    ensures
        final(asset)@ == with_version(old(asset)@, text_view(version)),
{
    match version {
        Some(v) => {
            let mut versions: Vec<String> = Vec::new();
            versions.push(v);
            proof {
                assert(versions.deep_view() =~= seq![v@]);
            }
            asset.bevy_versions = Some(versions);
        },
        None => {},
    }
}

/// Takes from `manifest` what it says of the asset's license and framework
/// version, and says what is to be fetched next.
pub fn apply_manifest(asset: &mut Asset, manifest: &Manifest, owner: String, repository: String) -> (r:
    Request)
    ensures
        (final(asset)@, r@) == after_manifest(old(asset)@, manifest@, owner@, repository@),
{
    set_version(asset, bevy_version_of(manifest));
    match &manifest.license {
        Some(license) => {
            asset.set_license(license.as_str());
            Request::Nothing
        },
        None => Request::RepositoryLicense { owner, repository },
    }
}

/// Takes from one record of the registry its license and framework version.
pub fn apply_record(asset: &mut Asset, record: &RegistryRecord)
    ensures
        final(asset)@ == after_record(old(asset)@, record@),
{
    asset.set_license(record.license.as_str());
    match &record.versions {
        Some(versions) => {
            proof {
                assert(versions.deep_view().len() == versions@.len());
            }
            if versions.len() > 0 {
                proof {
                    assert(versions.deep_view()[0] == versions@[0]@);
                }
                let version = text_of(&remove_char(&chars_of(versions[0].as_str()), '^'));
                set_version(asset, Some(version));
            }
        },
        None => {},
    }
}

/// Takes from the records of the registry, in order, their licenses and framework versions.
pub fn apply_records(asset: &mut Asset, records: &Vec<Option<RegistryRecord>>)
    ensures
        final(asset)@ == after_records(old(asset)@, records_view(records@)),
{
    let ghost all = records_view(records@);
    let mut i: usize = 0;
    while i < records.len()
        invariant
            i <= records.len(),
            all == records_view(records@),
            asset@ == after_records(old(asset)@, all.take(i as int)),
        decreases records.len() - i,
    {
        proof {
            assert(all.take(i + 1).drop_last() == all.take(i as int));
            assert(all.take(i + 1).last() == record_view(records@[i as int]));
        }
        match &records[i] {
            Some(record) => {
                apply_record(asset, record);
            },
            None => {},
        }
        i += 1;
    }
    proof {
        assert(all.take(records.len() as int) == all);
    }
}

/// The request that opens the enrichment from `source`.
pub fn request_for(source: Source) -> (r: Request)
    ensures
        r@ == first_request(source@),
{
    match source {
        Source::CodeHost { owner, repository } => Request::Content {
            owner,
            repository,
            path: "Cargo.toml".to_owned(),
        },
        Source::Registry { package } => Request::ReverseDependencies {
            package,
            framework: "bevy".to_owned(),
        },
        Source::Nowhere => Request::Nothing,
    }
}

/// The request that opens the enrichment of an asset with the link `link`, or why it cannot be opened.
pub open spec fn opening(link: Seq<char>, code_host: bool, registry: bool) -> Result<
    RequestView,
    LinkError,
> {
    match link_source(link, code_host, registry) {
        Ok(source) => Ok(first_request(source)),
        Err(e) => Err(e),
    }
}

/// Opens the enrichment of `asset`: says what is to be fetched for it
/// first. `code_host` and `registry` say whether there is a client for the
/// code host and a copy of the registry.
pub fn begin(asset: &Asset, code_host: bool, registry: bool) -> (r: Result<Request, LinkError>)
    ensures
        match r {
            Ok(request) => opening(asset@.link, code_host, registry) == Ok::<
                RequestView,
                LinkError,
            >(request@),
            Err(e) => opening(asset@.link, code_host, registry) == Err::<RequestView, LinkError>(e),
        },
{
    match source_for(asset.link.as_str(), code_host, registry) {
        Ok(source) => Ok(request_for(source)),
        Err(e) => Err(e),
    }
}

/// Takes the reply to the open request into `asset` and says what is to be
/// fetched next; `Request::Nothing` ends the enrichment.
pub fn advance(asset: &mut Asset, open: Request, reply: Reply) -> (r: Request)
    ensures
        (final(asset)@, r@) == step(old(asset)@, open@, reply@),
{
    match (open, reply) {
        (Request::Content { owner, repository, path }, Reply::Content(Some(text))) => {
            match parse_manifest(text.as_str()) {
                Ok(manifest) => apply_manifest(asset, &manifest, owner, repository),
                Err(_) => Request::Nothing,
            }
        },
        (Request::RepositoryLicense { owner, repository }, Reply::License(Some(license))) => {
            asset.set_license(license.as_str());
            Request::Nothing
        },
        (Request::ReverseDependencies { package, framework }, Reply::Records(Some(records))) => {
            apply_records(asset, &records);
            Request::Nothing
        },
        _ => Request::Nothing,
    }
}

/// An asset whose link is on a host that is neither the code host nor the
/// registry is enriched without anything being fetched, and so is any asset
/// where there is nobody to ask.
pub proof fn lemma_unrecognized_host_fetches_nothing(
    link: Seq<char>,
    code_host: bool,
    registry: bool,
)
    requires
        parsed_link(link) is Some,
        ({
            let host = parsed_link(link)->0.host;
            host != Some("github.com"@) && host != Some("crates.io"@) || !code_host && !registry
        }),
    ensures
        opening(link, code_host, registry) == Ok::<RequestView, LinkError>(RequestView::Nothing),
{
    lemma_unrecognized_host_has_no_source(parsed_link(link)->0, code_host, registry);
}

/// A fetch that failed ends the enrichment and leaves the asset as it was.
pub proof fn lemma_failed_fetch_changes_nothing(asset: AssetView, open: RequestView, reply: ReplyView)
    requires
        reply == ReplyView::Content(None) || reply == ReplyView::License(None) || reply
            == ReplyView::Records(None),
    ensures
        step(asset, open, reply) == (asset, RequestView::Nothing),
{
}

/// Every step of an enrichment leaves all of the asset but its licenses and
/// its framework versions as it was.
pub proof fn lemma_step_keeps_description(asset: AssetView, open: RequestView, reply: ReplyView)
    ensures
        step(asset, open, reply).0 == (AssetView {
            licenses: step(asset, open, reply).0.licenses,
            bevy_versions: step(asset, open, reply).0.bevy_versions,
            ..asset
        }),
{
    match reply {
        ReplyView::Records(Some(records)) => {
            lemma_records_keep_description(asset, records);
        },
        _ => {},
    }
}

/// The records of the registry change nothing of the asset but its licenses
/// and its framework versions.
pub proof fn lemma_records_keep_description(asset: AssetView, records: Seq<Option<RecordView>>)
    ensures
        after_records(asset, records) == (AssetView {
            licenses: after_records(asset, records).licenses,
            bevy_versions: after_records(asset, records).bevy_versions,
            ..asset
        }),
    decreases records.len(),
{
    if records.len() > 0 {
        lemma_records_keep_description(asset, records.drop_last());
    }
}

/// Of the records of the registry the last one that loaded decides the licenses.
pub proof fn lemma_last_record_wins(asset: AssetView, records: Seq<Option<RecordView>>)
    requires
        records.len() > 0,
        records.last() is Some,
    ensures
        after_records(asset, records).licenses == Some(license_ids(records.last()->0.license)),
{
}

} // verus!
