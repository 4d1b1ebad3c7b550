use crate::catalog::text_view;
use crate::keyed::{begins_with, first_where, lemma_first_where_skips};
use crate::text::{chars_of, has_prefix, same_text};
use cargo_toml::Dependency;
use vstd::prelude::*;

verus! {

/// How a package manifest specifies one dependency.
#[derive(Debug, PartialEq, Eq)]
pub enum DependencySpec {
    /// A bare version requirement.
    Simple(String),
    /// Taken over from the workspace, which the manifest does not show.
    Inherited,
    /// A table; of its fields, those that say which version is meant.
    Detailed { version: Option<String>, git: Option<String>, branch: Option<String> },
}

/// What a `DependencySpec` holds, as mathematical values.
pub ghost enum DependencyView {
    Simple(Seq<char>),
    Inherited,
    Detailed { version: Option<Seq<char>>, git: Option<Seq<char>>, branch: Option<Seq<char>> },
}

impl View for DependencySpec {
    type V = DependencyView;

    open spec fn view(&self) -> DependencyView {
        match *self {
            DependencySpec::Simple(v) => DependencyView::Simple(v@),
            DependencySpec::Inherited => DependencyView::Inherited,
            DependencySpec::Detailed { version, git, branch } => DependencyView::Detailed {
                version: text_view(version),
                git: text_view(git),
                branch: text_view(branch),
            },
        }
    }
}

/// What the catalog reads of a package manifest.
#[derive(Debug, PartialEq, Eq)]
pub struct Manifest {
    /// The license expression that the package section sets itself.
    pub license: Option<String>,
    /// The dependencies, by name, in the order the manifest's reader keeps them.
    pub dependencies: Vec<(String, DependencySpec)>,
}

/// What a `Manifest` holds, as mathematical values.
pub ghost struct ManifestView {
    pub license: Option<Seq<char>>,
    pub dependencies: Seq<(Seq<char>, DependencyView)>,
}

impl View for Manifest {
    type V = ManifestView;

    open spec fn view(&self) -> ManifestView {
        ManifestView {
            license: text_view(self.license),
            dependencies: Seq::new(
                self.dependencies@.len(),
                |i: int| (self.dependencies@[i].0@, self.dependencies@[i].1@),
            ),
        }
    }
}

/// Why a manifest was not read.
#[derive(Debug, Clone, Copy, PartialEq, Eq, Structural)]
pub enum ManifestError {
    /// The text is not a package manifest.
    Malformed,
}

/// What the manifest reader makes of `text`, or `None` where it rejects the text.
pub uninterp spec fn cargo_manifest(text: Seq<char>) -> Option<ManifestView>;

/// Reads `text` with `toml::from_str` as a `cargo_toml::Manifest` and hands
/// out the license that its package section sets and its dependencies, in
/// the order of the manifest's dependency map. Nothing is claimed of the
/// reader but that what it returns depends on the text alone.
#[verifier::external_body]
pub(crate) fn read_manifest(text: &str) -> (r: Result<Manifest, toml::de::Error>)
    ensures
        match r {
            Ok(m) => cargo_manifest(text@) == Some(m@),
            Err(_) => cargo_manifest(text@) is None,
        },
{
    let m = toml::from_str::<cargo_toml::Manifest>(text)?;
    Ok(Manifest {
        license: m.package.and_then(|p| p.license).and_then(|l| l.get().ok().cloned()),
        dependencies: m.dependencies.into_iter().map(|(name, dep)| (name, match dep {
            Dependency::Simple(v) => DependencySpec::Simple(v),
            Dependency::Inherited(_) => DependencySpec::Inherited,
            Dependency::Detailed(d) => DependencySpec::Detailed { version: d.version, git: d.git, branch: d.branch },
        })).collect(),
    })
}

/// The version label that a dependency specification stands for: a bare
/// version as it is; else the version field of a table; else, for a table
/// with a git source, `main` where its branch is `main` and `git` otherwise;
/// nothing where neither a version nor a git source is given.
pub open spec fn version_label(dep: DependencyView) -> Option<Seq<char>> {
    match dep {
        DependencyView::Simple(v) => Some(v),
        DependencyView::Inherited => None,
        DependencyView::Detailed { version, git, branch } => if version is Some {
            version
        } else if git is Some {
            if branch == Some("main"@) {
                Some("main"@)
            } else {
                Some("git"@)
            }
        } else {
            None
        },
    }
}

/// Computes `version_label`.
pub fn get_bevy_version(dep: &DependencySpec) -> (r: Option<String>)
    ensures
        text_view(r) == version_label(dep@),
{
    match dep {
        DependencySpec::Simple(version) => Some(version.clone()),
        DependencySpec::Inherited => None,
        DependencySpec::Detailed { version, git, branch } => {
            if let Some(version) = version {
                Some(version.clone())
            } else if git.is_some() {
                let on_main = match branch {
                    Some(b) => same_text(b.as_str(), "main"),
                    None => false,
                };
                if on_main {
                    Some("main".to_owned())
                } else {
                    Some("git".to_owned())
                }
            } else {
                None
            }
        },
    }
}

/// The version label of the first dependency whose name begins with `bevy`,
/// if there is such a dependency and its specification stands for a label.
pub open spec fn framework_version(m: ManifestView) -> Option<Seq<char>> {
    match first_where(m.dependencies, begins_with("bevy"@)) {
        Some(dep) => version_label(dep),
        None => None,
    }
}

/// Computes `framework_version`.
pub fn bevy_version_of(manifest: &Manifest) -> (r: Option<String>)
    ensures
        text_view(r) == framework_version(manifest@),
{
    let prefix = chars_of("bevy");
    let ghost deps = manifest@.dependencies;
    let mut i: usize = 0;
    while i < manifest.dependencies.len()
        invariant
            i <= manifest.dependencies.len(),
            deps == manifest@.dependencies,
            prefix@ == "bevy"@,
            forall|k: int| 0 <= k < i ==> !begins_with("bevy"@)((#[trigger] deps[k]).0),
        decreases manifest.dependencies.len() - i,
    {
        let name = chars_of(manifest.dependencies[i].0.as_str());
        if has_prefix(&name, &prefix) {
            proof {
                lemma_first_where_skips(deps, begins_with("bevy"@), i as int);
            }
            return get_bevy_version(&manifest.dependencies[i].1);
        }
        i += 1;
    }
    proof {
        lemma_first_where_skips(deps, begins_with("bevy"@), i as int);
    }
    None
}

/// The manifest that `text` holds.
pub fn parse_manifest(text: &str) -> (r: Result<Manifest, ManifestError>)
    ensures
        match r {
            Ok(m) => cargo_manifest(text@) == Some(m@),
            Err(_) => cargo_manifest(text@) is None,
        },
{
    match read_manifest(text) {
        Ok(m) => Ok(m),
        Err(_) => Err(ManifestError::Malformed),
    }
}

} // verus!
