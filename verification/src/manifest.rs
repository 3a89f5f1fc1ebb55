//! What a package manifest declares: its features, its dependencies, and the
//! dependencies of each target group.

use vstd::prelude::*;
use crate::env::opt_text;
use crate::text::texts;

verus! {

/// A dependency taken over from the workspace: `{ workspace = true, .. }`.
#[derive(Debug, Clone, PartialEq, Eq)]
pub struct InheritedDetail {
    /// The features asked for in addition to those of the workspace.
    pub features: Vec<String>,
    pub optional: bool,
}

/// A dependency written out as a table: `{ version = "1", features = [..] }`.
#[derive(Debug, Clone, PartialEq, Eq)]
pub struct DependencyDetail {
    pub version: Option<String>,
    pub path: Option<String>,
    pub git: Option<String>,
    pub rev: Option<String>,
    pub tag: Option<String>,
    pub branch: Option<String>,
    pub features: Vec<String>,
    pub optional: bool,
    pub default_features: bool,
}

/// How a manifest declares one dependency.
#[derive(Debug, Clone, PartialEq, Eq)]
pub enum Declaration {
    /// Only a version requirement: `foo = "1.0"`.
    Simple(String),
    Inherited(InheritedDetail),
    Detailed(DependencyDetail),
}

/// A dependency's name with its declaration.
#[derive(Debug, Clone, PartialEq, Eq)]
pub struct NamedDeclaration {
    pub name: String,
    pub decl: Declaration,
}

/// A feature of the package with its directives, each of the form
/// `dependency/feature`.
#[derive(Debug, Clone, PartialEq, Eq)]
pub struct Feature {
    pub name: String,
    pub directives: Vec<String>,
}

/// The dependencies that apply to one target: `key` is a target's name or a
/// `cfg(..)` predicate.
#[derive(Debug, Clone, PartialEq, Eq)]
pub struct TargetGroup {
    pub key: String,
    pub dependencies: Vec<NamedDeclaration>,
}

/// The parts of a manifest that decide which dependencies are active.
#[derive(Debug, Clone, PartialEq, Eq)]
pub struct Manifest {
    pub features: Vec<Feature>,
    pub dependencies: Vec<NamedDeclaration>,
    pub targets: Vec<TargetGroup>,
}

/// What an `InheritedDetail` holds, as a mathematical value.
pub struct InheritedDetailView {
    pub features: Seq<Seq<char>>,
    pub optional: bool,
}

/// What a `DependencyDetail` holds, as a mathematical value.
pub struct DependencyDetailView {
    pub version: Option<Seq<char>>,
    pub path: Option<Seq<char>>,
    pub git: Option<Seq<char>>,
    pub rev: Option<Seq<char>>,
    pub tag: Option<Seq<char>>,
    pub branch: Option<Seq<char>>,
    pub features: Seq<Seq<char>>,
    pub optional: bool,
    pub default_features: bool,
}

/// What a `Declaration` holds, as a mathematical value.
pub enum DeclarationView {
    Simple(Seq<char>),
    Inherited(InheritedDetailView),
    Detailed(DependencyDetailView),
}

/// What a `NamedDeclaration` holds, as a mathematical value.
pub struct NamedDeclarationView {
    pub name: Seq<char>,
    pub decl: DeclarationView,
}

/// What a `Feature` holds, as a mathematical value.
pub struct FeatureView {
    pub name: Seq<char>,
    pub directives: Seq<Seq<char>>,
}

/// What a `TargetGroup` holds, as a mathematical value.
pub struct TargetGroupView {
    pub key: Seq<char>,
    pub dependencies: Seq<NamedDeclarationView>,
}

/// What a `Manifest` holds, as a mathematical value.
pub struct ManifestView {
    pub features: Seq<FeatureView>,
    pub dependencies: Seq<NamedDeclarationView>,
    pub targets: Seq<TargetGroupView>,
}

impl View for InheritedDetail {
    type V = InheritedDetailView;

    open spec fn view(&self) -> InheritedDetailView {
        InheritedDetailView { features: texts(self.features@), optional: self.optional }
    }
}

impl View for DependencyDetail {
    type V = DependencyDetailView;

    open spec fn view(&self) -> DependencyDetailView {
        DependencyDetailView {
            version: opt_text(self.version),
            path: opt_text(self.path),
            git: opt_text(self.git),
            rev: opt_text(self.rev),
            tag: opt_text(self.tag),
            branch: opt_text(self.branch),
            features: texts(self.features@),
            optional: self.optional,
            default_features: self.default_features,
        }
    }
}

impl View for Declaration {
    type V = DeclarationView;

    open spec fn view(&self) -> DeclarationView {
        match self {
            Declaration::Simple(version) => DeclarationView::Simple(version@),
            Declaration::Inherited(detail) => DeclarationView::Inherited(detail@),
            Declaration::Detailed(detail) => DeclarationView::Detailed(detail@),
        }
    }
}

impl View for NamedDeclaration {
    type V = NamedDeclarationView;

    open spec fn view(&self) -> NamedDeclarationView {
        NamedDeclarationView { name: self.name@, decl: self.decl@ }
    }
}

impl View for Feature {
    type V = FeatureView;

    open spec fn view(&self) -> FeatureView {
        FeatureView { name: self.name@, directives: texts(self.directives@) }
    }
}

/// The views of a list of declarations, in order.
pub open spec fn declarations(list: Seq<NamedDeclaration>) -> Seq<NamedDeclarationView> {
    list.map_values(|d: NamedDeclaration| d@)
}

impl View for TargetGroup {
    type V = TargetGroupView;

    open spec fn view(&self) -> TargetGroupView {
        TargetGroupView { key: self.key@, dependencies: declarations(self.dependencies@) }
    }
}

/// The views of a list of features, in order.
pub open spec fn features_of(list: Seq<Feature>) -> Seq<FeatureView> {
    list.map_values(|f: Feature| f@)
}

/// The views of a list of target groups, in order.
pub open spec fn groups_of(list: Seq<TargetGroup>) -> Seq<TargetGroupView> {
    list.map_values(|g: TargetGroup| g@)
}

impl View for Manifest {
    type V = ManifestView;

    open spec fn view(&self) -> ManifestView {
        ManifestView {
            features: features_of(self.features@),
            dependencies: declarations(self.dependencies@),
            targets: groups_of(self.targets@),
        }
    }
}

/// The view of an optional manifest.
pub open spec fn opt_manifest(m: Option<Manifest>) -> Option<ManifestView> {
    match m {
        Some(m) => Some(m@),
        None => None,
    }
}

} // verus!
