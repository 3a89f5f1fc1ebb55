//! The activation rule: what one declaration of a dependency comes to in the
//! current build.

use vstd::prelude::*;
use crate::env::{env_is_set, EnvView, Environment};
use crate::features::{requested, FeatureMap, FeatureMapView};
use crate::manifest::{Declaration, DeclarationView, DependencyDetail, DependencyDetailView};
use crate::name_set::NameSet;

verus! {

/// Which revision of a git repository is used.
#[derive(Debug, Clone, PartialEq, Eq)]
pub enum GitRev {
    /// Nothing is specified: the head of the default branch.
    Master,
    /// The head of the given branch.
    Branch(String),
    /// The given tag.
    Tag(String),
    /// The given revision.
    Revision(String),
}

/// Where the code of a dependency comes from.
#[derive(Debug, Clone, PartialEq, Eq)]
pub enum DepSource {
    /// A git repository.
    Git {
        /// The repository's URL.
        url: String,
        /// Which revision to use.
        revision: GitRev,
    },
    /// A path on disk.
    Path(String),
    /// The registry, with the version requirement.
    CratesIo(String),
    /// Not known: the declaration names no source, or leaves it to the workspace.
    Unknown,
}

/// A dependency that is active in the current build.
#[derive(Debug, Clone)]
pub struct ActiveDependency {
    /// Where the code comes from.
    pub source: DepSource,
    /// Whether the dependency's default features are included.
    pub include_default_features: bool,
    /// The features that are asked for besides.
    pub features: NameSet,
}

/// What a `GitRev` holds, as a mathematical value.
pub enum GitRevView {
    Master,
    Branch(Seq<char>),
    Tag(Seq<char>),
    Revision(Seq<char>),
}

/// What a `DepSource` holds, as a mathematical value.
pub enum DepSourceView {
    Git { url: Seq<char>, revision: GitRevView },
    Path(Seq<char>),
    CratesIo(Seq<char>),
    Unknown,
}

/// What an `ActiveDependency` holds, as a mathematical value.
pub struct ActiveDependencyView {
    pub source: DepSourceView,
    pub include_default_features: bool,
    pub features: Set<Seq<char>>,
}

impl View for GitRev {
    type V = GitRevView;

    open spec fn view(&self) -> GitRevView {
        match self {
            GitRev::Master => GitRevView::Master,
            GitRev::Branch(name) => GitRevView::Branch(name@),
            GitRev::Tag(name) => GitRevView::Tag(name@),
            GitRev::Revision(rev) => GitRevView::Revision(rev@),
        }
    }
}

impl View for DepSource {
    type V = DepSourceView;

    open spec fn view(&self) -> DepSourceView {
        match self {
            DepSource::Git { url, revision } => DepSourceView::Git { url: url@, revision: revision@ },
            DepSource::Path(path) => DepSourceView::Path(path@),
            DepSource::CratesIo(version) => DepSourceView::CratesIo(version@),
            DepSource::Unknown => DepSourceView::Unknown,
        }
    }
}

impl View for ActiveDependency {
    type V = ActiveDependencyView;

    open spec fn view(&self) -> ActiveDependencyView {
        ActiveDependencyView {
            source: self.source@,
            include_default_features: self.include_default_features,
            features: self.features@,
        }
    }
}

/// The view of an optional active dependency.
pub open spec fn opt_active(d: Option<ActiveDependency>) -> Option<ActiveDependencyView> {
    match d {
        Some(a) => Some(a@),
        None => None,
    }
}

/// The name of the environment variable that is set where the feature `name`
/// is enabled: the prefix `CARGO_FEATURE_` and the name as it is written.
pub open spec fn feature_key(name: Seq<char>) -> Seq<char> {
    "CARGO_FEATURE_"@ + name
}

/// The revision that a detailed declaration selects: its `rev` where it has
/// one, else its `tag`, else its `branch`, else the head of the default branch.
pub open spec fn selected_revision(d: DependencyDetailView) -> GitRevView {
    match (d.rev, d.tag, d.branch) {
        (Some(rev), _, _) => GitRevView::Revision(rev),
        (None, Some(tag), _) => GitRevView::Tag(tag),
        (None, None, Some(branch)) => GitRevView::Branch(branch),
        (None, None, None) => GitRevView::Master,
    }
}

/// The source that a detailed declaration selects: the registry where it has a
/// `version`, else its `path`, else its `git` repository, else none that is
/// known.
pub open spec fn selected_source(d: DependencyDetailView) -> DepSourceView {
    match (d.version, d.path, d.git) {
        (Some(version), _, _) => DepSourceView::CratesIo(version),
        (None, Some(path), _) => DepSourceView::Path(path),
        (None, None, Some(url)) => DepSourceView::Git { url, revision: selected_revision(d) },
        (None, None, None) => DepSourceView::Unknown,
    }
}

/// Whether an optional dependency `name` is left out: it is optional and the
/// environment does not signal the feature of its name.
pub open spec fn left_out(optional: bool, name: Seq<char>, env: EnvView) -> bool {
    optional && !env_is_set(env, feature_key(name))
}

/// What the declaration `decl` of the dependency `name` comes to: `None` where
/// it is left out, else the active dependency, whose features are those that
/// `features` asks of `name` together with those of the declaration.
pub open spec fn activation(
    features: FeatureMapView,
    name: Seq<char>,
    decl: DeclarationView,
    env: EnvView,
) -> Option<ActiveDependencyView> {
    match decl {
        DeclarationView::Simple(version) => Some(
            ActiveDependencyView {
                source: DepSourceView::CratesIo(version),
                include_default_features: true,
                features: requested(features, name),
            },
        ),
        DeclarationView::Inherited(d) => if left_out(d.optional, name, env) {
            None
        } else {
            Some(
                ActiveDependencyView {
                    source: DepSourceView::Unknown,
                    include_default_features: false,
                    features: requested(features, name) + d.features.to_set(),
                },
            )
        },
        DeclarationView::Detailed(d) => if left_out(d.optional, name, env) {
            None
        } else {
            Some(
                ActiveDependencyView {
                    source: selected_source(d),
                    include_default_features: d.default_features,
                    features: requested(features, name) + d.features.to_set(),
                },
            )
        },
    }
}

/// A declaration that is only a version requirement is always active: it comes
/// from the registry under that requirement, with its default features.
pub proof fn lemma_simple_is_active(
    features: FeatureMapView,
    name: Seq<char>,
    version: Seq<char>,
    env: EnvView,
)
    ensures
        activation(features, name, DeclarationView::Simple(version), env) matches Some(active)
            && active.source == DepSourceView::CratesIo(version) && active.include_default_features
            && active.features == requested(features, name),
{
}

/// A declaration that is taken over from the workspace, where it is active, has
/// no known source and no default features of its own choice.
pub proof fn lemma_inherited_is_active(
    features: FeatureMapView,
    name: Seq<char>,
    d: crate::manifest::InheritedDetailView,
    env: EnvView,
)
    requires
        !d.optional || env_is_set(env, feature_key(name)),
    ensures
        activation(features, name, DeclarationView::Inherited(d), env) == Some(
            ActiveDependencyView {
                source: DepSourceView::Unknown,
                include_default_features: false,
                features: requested(features, name) + d.features.to_set(),
            },
        ),
{
}

/// An optional dependency whose feature the environment does not signal is
/// left out, whether it is written out or taken over from the workspace.
pub proof fn lemma_optional_is_left_out(
    features: FeatureMapView,
    name: Seq<char>,
    decl: DeclarationView,
    env: EnvView,
)
    requires
        !env_is_set(env, feature_key(name)),
        match decl {
            DeclarationView::Simple(_) => false,
            DeclarationView::Inherited(d) => d.optional,
            DeclarationView::Detailed(d) => d.optional,
        },
    ensures
        activation(features, name, decl, env) is None,
{
}

/// A dependency is left out only where it is declared optional and its
/// feature is not signalled: every other declaration is active.
pub proof fn lemma_left_out_only_if_optional(
    features: FeatureMapView,
    name: Seq<char>,
    decl: DeclarationView,
    env: EnvView,
)
    requires
        activation(features, name, decl, env) is None,
    ensures
        !env_is_set(env, feature_key(name)),
        decl is Inherited || decl is Detailed,
        decl matches DeclarationView::Inherited(d) ==> d.optional,
        decl matches DeclarationView::Detailed(d) ==> d.optional,
{
}

/// The order in which a revision is selected: `rev` before `tag`, `tag` before
/// `branch`, and the head of the default branch only where none of them is
/// given. So a declaration with a tag and a branch selects the tag, unless it
/// has a `rev`.
pub proof fn lemma_revision_order(d: DependencyDetailView)
    ensures
        d.rev matches Some(rev) ==> selected_revision(d) == GitRevView::Revision(rev),
        d.rev is None ==> (d.tag matches Some(tag) ==> selected_revision(d) == GitRevView::Tag(tag)),
        d.rev is None && d.tag is None ==> (d.branch matches Some(branch) ==> selected_revision(d)
            == GitRevView::Branch(branch)),
        selected_revision(d) is Master <==> d.rev is None && d.tag is None && d.branch is None,
        selected_revision(d) is Branch ==> d.tag is None && d.rev is None,
{
}

/// The order in which a source is selected: `version` before `path`, `path`
/// before `git`, and none where none of them is given. A git source carries the
/// selected revision.
pub proof fn lemma_source_order(d: DependencyDetailView)
    ensures
        d.version matches Some(version) ==> selected_source(d) == DepSourceView::CratesIo(version),
        d.version is None ==> (d.path matches Some(path) ==> selected_source(d)
            == DepSourceView::Path(path)),
        d.version is None && d.path is None ==> (d.git matches Some(url) ==> selected_source(d) == (
        DepSourceView::Git { url, revision: selected_revision(d) })),
        selected_source(d) is Unknown <==> d.version is None && d.path is None && d.git is None,
{
}

/// A written-out declaration that is active has the selected source, the
/// declared choice of default features, and the features asked of it together
/// with its own.
pub proof fn lemma_detailed_is_active(
    features: FeatureMapView,
    name: Seq<char>,
    d: DependencyDetailView,
    env: EnvView,
)
    requires
        !d.optional || env_is_set(env, feature_key(name)),
    ensures
        activation(features, name, DeclarationView::Detailed(d), env) == Some(
            ActiveDependencyView {
                source: selected_source(d),
                include_default_features: d.default_features,
                features: requested(features, name) + d.features.to_set(),
            },
        ),
{
}

/// Whether the environment signals the feature `name`.
pub fn feature_enabled(name: &str, env: &Environment) -> (r: bool)
    ensures
        r == env_is_set(env@, feature_key(name@)),
{
    let mut key = String::from_str("CARGO_FEATURE_");
    key.append(name);
    env.is_set(key.as_str())
}

/// The revision that a detailed declaration selects.
pub fn select_revision(d: &DependencyDetail) -> (r: GitRev)
    ensures
        r@ == selected_revision(d@),
{
    if let Some(rev) = &d.rev {
        GitRev::Revision(rev.clone())
    } else if let Some(tag) = &d.tag {
        GitRev::Tag(tag.clone())
    } else if let Some(branch) = &d.branch {
        GitRev::Branch(branch.clone())
    } else {
        GitRev::Master
    }
}

/// The source that a detailed declaration selects.
pub fn select_source(d: &DependencyDetail) -> (r: DepSource)
    ensures
        r@ == selected_source(d@),
{
    if let Some(version) = &d.version {
        DepSource::CratesIo(version.clone())
    } else if let Some(path) = &d.path {
        DepSource::Path(path.clone())
    } else if let Some(url) = &d.git {
        DepSource::Git { url: url.clone(), revision: select_revision(d) }
    } else {
        DepSource::Unknown
    }
}

/// Applies the activation rule to the declaration `dep_info` of the dependency
/// `depname`.
pub fn get_activedep(
    dep_features: &FeatureMap,
    depname: &str,
    dep_info: &Declaration,
    env: &Environment,
) -> (r: Option<ActiveDependency>)
    ensures
        opt_active(r) == activation(dep_features@, depname@, dep_info@, env@),
{
    match dep_info {
        Declaration::Simple(version) => Some(
            ActiveDependency {
                source: DepSource::CratesIo(version.clone()),
                include_default_features: true,
                features: dep_features.requested(depname),
            },
        ),
        Declaration::Inherited(details) => {
            if details.optional && !feature_enabled(depname, env) {
                return None;
            }
            let mut features = dep_features.requested(depname);
            features.extend(&details.features);
            Some(
                ActiveDependency {
                    source: DepSource::Unknown,
                    include_default_features: false,
                    features,
                },
            )
        },
        Declaration::Detailed(details) => {
            if details.optional && !feature_enabled(depname, env) {
                return None;
            }
            let source = select_source(details);
            let mut features = dep_features.requested(depname);
            features.extend(&details.features);
            Some(
                ActiveDependency {
                    source,
                    include_default_features: details.default_features,
                    features,
                },
            )
        },
    }
}

} // verus!
