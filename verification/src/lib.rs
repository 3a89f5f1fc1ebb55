//! Works out which dependencies of a package are active in the current build:
//! which optional dependencies are enabled, which target groups apply, and
//! which features are asked of each dependency.
//!
//! The entry point is [`enumerate`], which takes the content of the manifest
//! and a snapshot of the environment that the build tool has set up.

pub mod active;
pub mod cfg;
pub mod dep_map;
pub mod env;
pub mod features;
pub mod manifest;
pub mod name_set;
pub mod parse;
pub mod resolve;
pub mod str_map;
pub mod text;

pub use active::{get_activedep, ActiveDependency, DepSource, GitRev};
pub use cfg::{check_cfg, check_cfg_root, CfgExpr, CfgList};
pub use dep_map::DependencyMap;
pub use env::Environment;
pub use features::FeatureMap;
pub use manifest::{
    Declaration, DependencyDetail, Feature, InheritedDetail, Manifest, NamedDeclaration,
    TargetGroup,
};
pub use name_set::NameSet;
pub use parse::parse_predicate;
pub use resolve::{active_features, add_group, enumerate, resolve, target_is_active, ResolveError};
