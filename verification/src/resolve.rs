//! The resolution: from a manifest and a snapshot of the environment to the
//! dependencies that are active in the current build.

use vstd::prelude::*;
use crate::active::{activation, feature_enabled, feature_key, get_activedep};
use crate::cfg::{check_cfg_root, eval_root};
use crate::dep_map::{DependencyMap, DependencyMapView};
use crate::env::{env_is_set, env_text, EnvView, Environment};
use crate::features::{with_feature, FeatureMap, FeatureMapView};
use crate::manifest::{
    declarations, features_of, groups_of, Feature, FeatureView, Manifest, ManifestView,
    NamedDeclaration, NamedDeclarationView, TargetGroup, TargetGroupView,
};
use crate::parse::{parse_manifest, parse_predicate, parsed_manifest, predicate_of};
use crate::text::{split_in_two, starts_with, text_eq, two_parts};

verus! {

/// Why a resolution fails.
#[derive(Debug, Clone, PartialEq, Eq)]
pub enum ResolveError {
    /// The manifest cannot be parsed.
    Manifest,
    /// A directive of an enabled feature is not of the form
    /// `dependency/feature`.
    Directive { feature: String, directive: String },
    /// The environment does not name the target of the build.
    Target,
    /// The key of a target group begins with `cfg` and cannot be read as a
    /// predicate.
    PredicateSyntax { key: String },
    /// The key of a target group is a predicate that cannot be evaluated.
    PredicateUnsupported { key: String },
}

/// What a `ResolveError` holds, as a mathematical value.
pub enum ResolveErrorView {
    Manifest,
    Directive { feature: Seq<char>, directive: Seq<char> },
    Target,
    PredicateSyntax { key: Seq<char> },
    PredicateUnsupported { key: Seq<char> },
}

impl View for ResolveError {
    type V = ResolveErrorView;

    open spec fn view(&self) -> ResolveErrorView {
        match self {
            ResolveError::Manifest => ResolveErrorView::Manifest,
            ResolveError::Directive { feature, directive } => ResolveErrorView::Directive {
                feature: feature@,
                directive: directive@,
            },
            ResolveError::Target => ResolveErrorView::Target,
            ResolveError::PredicateSyntax { key } => ResolveErrorView::PredicateSyntax { key: key@ },
            ResolveError::PredicateUnsupported { key } => ResolveErrorView::PredicateUnsupported {
                key: key@,
            },
        }
    }
}

/// The view of a result: that of its value or that of its error.
pub open spec fn result_view<T: View>(r: Result<T, ResolveError>) -> Result<T::V, ResolveErrorView> {
    match r {
        Ok(t) => Ok(t@),
        Err(e) => Err(e@),
    }
}

/// The map after the directives are recorded in it from left to right; at the
/// first that is not of the form `dependency/feature`, that directive as the
/// error.
pub open spec fn with_directives(map: FeatureMapView, directives: Seq<Seq<char>>) -> Result<
    FeatureMapView,
    Seq<char>,
>
    decreases directives.len(),
{
    if directives.len() == 0 {
        Ok(map)
    } else {
        match two_parts(directives[0], '/') {
            Some((dep, feature)) => with_directives(
                with_feature(map, dep, feature),
                directives.drop_first(),
            ),
            None => Err(directives[0]),
        }
    }
}

/// The map after the directives of every feature that the environment signals
/// are recorded in it, feature by feature from left to right.
pub open spec fn with_features(map: FeatureMapView, features: Seq<FeatureView>, env: EnvView) -> Result<
    FeatureMapView,
    ResolveErrorView,
>
    decreases features.len(),
{
    if features.len() == 0 {
        Ok(map)
    } else if env_is_set(env, feature_key(features[0].name)) {
        match with_directives(map, features[0].directives) {
            Ok(next) => with_features(next, features.drop_first(), env),
            Err(directive) => Err(
                ResolveErrorView::Directive { feature: features[0].name, directive },
            ),
        }
    } else {
        with_features(map, features.drop_first(), env)
    }
}

/// The feature activation map of a manifest's features in the environment
/// `env`.
pub open spec fn feature_map(features: Seq<FeatureView>, env: EnvView) -> Result<
    FeatureMapView,
    ResolveErrorView,
> {
    with_features(FeatureMapView::empty(), features, env)
}

/// The dependencies after the activation rule is applied to each declaration of
/// `group` from left to right: one that is active is put under its name, in
/// place of what was there.
pub open spec fn with_group(
    deps: DependencyMapView,
    group: Seq<NamedDeclarationView>,
    features: FeatureMapView,
    env: EnvView,
) -> DependencyMapView
    decreases group.len(),
{
    if group.len() == 0 {
        deps
    } else {
        let next = match activation(features, group[0].name, group[0].decl, env) {
            Some(active) => deps.insert(group[0].name, active),
            None => deps,
        };
        with_group(next, group.drop_first(), features, env)
    }
}

/// Whether the target group under `key` applies to the build for `target`.
/// A key that begins with `cfg` is a predicate: it must be readable and
/// evaluable, and applies where it holds. Any other key is a target's name, and
/// applies where it is `target` exactly.
pub open spec fn target_active(key: Seq<char>, target: Seq<char>, env: EnvView) -> Result<
    bool,
    ResolveErrorView,
> {
    if "cfg"@.is_prefix_of(key) {
        match predicate_of(key) {
            None => Err(ResolveErrorView::PredicateSyntax { key }),
            Some(root) => match eval_root(root, env) {
                None => Err(ResolveErrorView::PredicateUnsupported { key }),
                Some(holds) => Ok(holds),
            },
        }
    } else {
        Ok(key == target)
    }
}

/// The dependencies after the target groups are gone through from left to
/// right, each that applies adding its dependencies; the error of the first
/// group whose key fails.
pub open spec fn with_targets(
    deps: DependencyMapView,
    groups: Seq<TargetGroupView>,
    target: Seq<char>,
    features: FeatureMapView,
    env: EnvView,
) -> Result<DependencyMapView, ResolveErrorView>
    decreases groups.len(),
{
    if groups.len() == 0 {
        Ok(deps)
    } else {
        match target_active(groups[0].key, target, env) {
            Err(e) => Err(e),
            Ok(applies) => {
                let next = if applies {
                    with_group(deps, groups[0].dependencies, features, env)
                } else {
                    deps
                };
                with_targets(next, groups.drop_first(), target, features, env)
            },
        }
    }
}

/// The active dependencies of a manifest in the environment `env`: those of
/// its unconditional dependencies, overwritten by those of each target group
/// that applies; or the first failure on the way, in this order: a malformed
/// directive, the missing target, a target group's key.
pub open spec fn resolved(manifest: ManifestView, env: EnvView) -> Result<
    DependencyMapView,
    ResolveErrorView,
> {
    match feature_map(manifest.features, env) {
        Err(e) => Err(e),
        Ok(features) => match env_text(env, "TARGET"@) {
            None => Err(ResolveErrorView::Target),
            Some(target) => with_targets(
                with_group(DependencyMapView::empty(), manifest.dependencies, features, env),
                manifest.targets,
                target,
                features,
                env,
            ),
        },
    }
}

/// The active dependencies of the manifest that is read out of `content`.
pub open spec fn enumerated(content: Seq<u8>, env: EnvView) -> Result<
    DependencyMapView,
    ResolveErrorView,
> {
    match parsed_manifest(content) {
        None => Err(ResolveErrorView::Manifest),
        Some(manifest) => resolved(manifest, env),
    }
}

/// Whether one of the directives is `dep/feature`.
pub open spec fn asks(directives: Seq<Seq<char>>, dep: Seq<char>, feature: Seq<char>) -> bool {
    exists|j: int|
        0 <= j < directives.len() && two_parts(#[trigger] directives[j], '/') == Some(
            (dep, feature),
        )
}

/// Whether a feature that the environment signals holds the directive
/// `dep/feature`.
pub open spec fn enabled_asks(
    features: Seq<FeatureView>,
    env: EnvView,
    dep: Seq<char>,
    feature: Seq<char>,
) -> bool {
    exists|i: int|
        0 <= i < features.len() && env_is_set(env, feature_key((#[trigger] features[i]).name))
            && asks(features[i].directives, dep, feature)
}

/// After directives are recorded, a feature is asked of a dependency exactly
/// where it was asked before or one of the directives asks it.
pub proof fn lemma_with_directives_asks(
    map: FeatureMapView,
    directives: Seq<Seq<char>>,
    dep: Seq<char>,
    feature: Seq<char>,
)
    requires
        with_directives(map, directives) is Ok,
    ensures
        crate::features::requested(with_directives(map, directives)->Ok_0, dep).contains(feature)
            <==> crate::features::requested(map, dep).contains(feature) || asks(
            directives,
            dep,
            feature,
        ),
    decreases directives.len(),
{
    if directives.len() > 0 {
        let rest = directives.drop_first();
        let parts = two_parts(directives[0], '/')->Some_0;
        let next = with_feature(map, parts.0, parts.1);
        lemma_with_directives_asks(next, rest, dep, feature);
        if asks(rest, dep, feature) {
            let j = choose|j: int|
                0 <= j < rest.len() && two_parts(#[trigger] rest[j], '/') == Some((dep, feature));
            assert(directives[j + 1] == rest[j]);
        }
        if asks(directives, dep, feature) {
            let j = choose|j: int|
                0 <= j < directives.len() && two_parts(#[trigger] directives[j], '/') == Some(
                    (dep, feature),
                );
            if j > 0 {
                assert(rest[j - 1] == directives[j]);
            }
        }
        if parts == (dep, feature) {
            assert(two_parts(directives[0], '/') == Some((dep, feature)));
        }
    }
}

/// After the features are gone through, a feature is asked of a dependency
/// exactly where it was asked before or a feature that the environment signals
/// holds the directive for it.
pub proof fn lemma_with_features_asks(
    map: FeatureMapView,
    features: Seq<FeatureView>,
    env: EnvView,
    dep: Seq<char>,
    feature: Seq<char>,
)
    requires
        with_features(map, features, env) is Ok,
    ensures
        crate::features::requested(with_features(map, features, env)->Ok_0, dep).contains(feature)
            <==> crate::features::requested(map, dep).contains(feature) || enabled_asks(
            features,
            env,
            dep,
            feature,
        ),
    decreases features.len(),
{
    if features.len() > 0 {
        let rest = features.drop_first();
        let enabled = env_is_set(env, feature_key(features[0].name));
        let next = if enabled {
            with_directives(map, features[0].directives)->Ok_0
        } else {
            map
        };
        if enabled {
            lemma_with_directives_asks(map, features[0].directives, dep, feature);
        }
        lemma_with_features_asks(next, rest, env, dep, feature);
        if enabled_asks(rest, env, dep, feature) {
            let i = choose|i: int|
                0 <= i < rest.len() && env_is_set(env, feature_key((#[trigger] rest[i]).name))
                    && asks(rest[i].directives, dep, feature);
            assert(features[i + 1] == rest[i]);
        }
        if enabled_asks(features, env, dep, feature) {
            let i = choose|i: int|
                0 <= i < features.len() && env_is_set(
                    env,
                    feature_key((#[trigger] features[i]).name),
                ) && asks(features[i].directives, dep, feature);
            if i > 0 {
                assert(rest[i - 1] == features[i]);
            }
        }
    }
}

/// What the feature activation map holds: a feature is asked of a dependency
/// exactly where a feature of the package that the environment signals holds
/// the directive `dependency/feature`.
pub proof fn lemma_feature_map_asks(
    features: Seq<FeatureView>,
    env: EnvView,
    dep: Seq<char>,
    feature: Seq<char>,
)
    requires
        feature_map(features, env) is Ok,
    ensures
        crate::features::requested(feature_map(features, env)->Ok_0, dep).contains(feature)
            <==> enabled_asks(features, env, dep, feature),
{
    lemma_with_features_asks(FeatureMapView::empty(), features, env, dep, feature);
}

/// Whether `group` holds a declaration of `name` that is active.
pub open spec fn activates(
    group: Seq<NamedDeclarationView>,
    name: Seq<char>,
    features: FeatureMapView,
    env: EnvView,
) -> bool {
    exists|i: int|
        0 <= i < group.len() && (#[trigger] group[i]).name == name && activation(
            features,
            name,
            group[i].decl,
            env,
        ) is Some
}

/// Whether, among `groups`, a group that applies holds a declaration of `name`
/// that is active.
pub open spec fn some_target_activates(
    groups: Seq<TargetGroupView>,
    name: Seq<char>,
    target: Seq<char>,
    features: FeatureMapView,
    env: EnvView,
) -> bool {
    exists|g: int|
        0 <= g < groups.len() && target_active((#[trigger] groups[g]).key, target, env) == Ok::<
            bool,
            ResolveErrorView,
        >(true) && activates(groups[g].dependencies, name, features, env)
}

/// After a group is gone through, a name has a dependency exactly where it had
/// one before or the group holds an active declaration of it.
pub proof fn lemma_with_group_names(
    deps: DependencyMapView,
    group: Seq<NamedDeclarationView>,
    features: FeatureMapView,
    env: EnvView,
    name: Seq<char>,
)
    ensures
        with_group(deps, group, features, env).contains_key(name) <==> deps.contains_key(name)
            || activates(group, name, features, env),
    decreases group.len(),
{
    if group.len() > 0 {
        let rest = group.drop_first();
        let next = match activation(features, group[0].name, group[0].decl, env) {
            Some(active) => deps.insert(group[0].name, active),
            None => deps,
        };
        lemma_with_group_names(next, rest, features, env, name);
        if activates(rest, name, features, env) {
            let i = choose|i: int|
                0 <= i < rest.len() && (#[trigger] rest[i]).name == name && activation(
                    features,
                    name,
                    rest[i].decl,
                    env,
                ) is Some;
            assert(group[i + 1] == rest[i]);
        }
        if activates(group, name, features, env) {
            let i = choose|i: int|
                0 <= i < group.len() && (#[trigger] group[i]).name == name && activation(
                    features,
                    name,
                    group[i].decl,
                    env,
                ) is Some;
            if i > 0 {
                assert(rest[i - 1] == group[i]);
            }
        }
    }
}

/// A name of which the group holds no active declaration keeps the dependency
/// that it had.
pub proof fn lemma_with_group_keeps(
    deps: DependencyMapView,
    group: Seq<NamedDeclarationView>,
    features: FeatureMapView,
    env: EnvView,
    name: Seq<char>,
)
    requires
        !activates(group, name, features, env),
        deps.contains_key(name),
    ensures
        with_group(deps, group, features, env).contains_key(name),
        with_group(deps, group, features, env)[name] == deps[name],
    decreases group.len(),
{
    if group.len() > 0 {
        let rest = group.drop_first();
        let next = match activation(features, group[0].name, group[0].decl, env) {
            Some(active) => deps.insert(group[0].name, active),
            None => deps,
        };
        assert(group[0].name == name ==> activation(features, name, group[0].decl, env) is None);
        assert(!activates(rest, name, features, env)) by {
            if activates(rest, name, features, env) {
                let i = choose|i: int|
                    0 <= i < rest.len() && (#[trigger] rest[i]).name == name && activation(
                        features,
                        name,
                        rest[i].decl,
                        env,
                    ) is Some;
                assert(group[i + 1] == rest[i]);
            }
        }
        lemma_with_group_keeps(next, rest, features, env, name);
    }
}

/// The last write wins: the dependency of a name is what the last active
/// declaration of that name in the group comes to, whatever stood there
/// before.
pub proof fn lemma_with_group_last_wins(
    deps: DependencyMapView,
    group: Seq<NamedDeclarationView>,
    features: FeatureMapView,
    env: EnvView,
    i: int,
)
    requires
        0 <= i < group.len(),
        activation(features, group[i].name, group[i].decl, env) is Some,
        forall|j: int|
            i < j < group.len() && (#[trigger] group[j]).name == group[i].name ==> activation(
                features,
                group[j].name,
                group[j].decl,
                env,
            ) is None,
    ensures
        with_group(deps, group, features, env).contains_key(group[i].name),
        Some(with_group(deps, group, features, env)[group[i].name]) == activation(
            features,
            group[i].name,
            group[i].decl,
            env,
        ),
    decreases group.len(),
{
    let rest = group.drop_first();
    let next = match activation(features, group[0].name, group[0].decl, env) {
        Some(active) => deps.insert(group[0].name, active),
        None => deps,
    };
    if i == 0 {
        assert(!activates(rest, group[0].name, features, env)) by {
            if activates(rest, group[0].name, features, env) {
                let j = choose|j: int|
                    0 <= j < rest.len() && (#[trigger] rest[j]).name == group[0].name && activation(
                        features,
                        group[0].name,
                        rest[j].decl,
                        env,
                    ) is Some;
                assert(group[j + 1] == rest[j]);
            }
        }
        lemma_with_group_keeps(next, rest, features, env, group[0].name);
    } else {
        assert(rest[i - 1] == group[i]);
        assert forall|j: int|
            i - 1 < j < rest.len() && (#[trigger] rest[j]).name == rest[i - 1].name implies activation(
            features,
            rest[j].name,
            rest[j].decl,
            env,
        ) is None by {
            assert(group[j + 1] == rest[j]);
        }
        lemma_with_group_last_wins(next, rest, features, env, i - 1);
    }
}

/// After the target groups are gone through, a name has a dependency exactly
/// where it had one before or a group that applies holds an active declaration
/// of it.
pub proof fn lemma_with_targets_names(
    deps: DependencyMapView,
    groups: Seq<TargetGroupView>,
    target: Seq<char>,
    features: FeatureMapView,
    env: EnvView,
    name: Seq<char>,
)
    requires
        with_targets(deps, groups, target, features, env) is Ok,
    ensures
        with_targets(deps, groups, target, features, env)->Ok_0.contains_key(name)
            <==> deps.contains_key(name) || some_target_activates(
            groups,
            name,
            target,
            features,
            env,
        ),
    decreases groups.len(),
{
    if groups.len() > 0 {
        let rest = groups.drop_first();
        let applies = target_active(groups[0].key, target, env)->Ok_0;
        let next = if applies {
            with_group(deps, groups[0].dependencies, features, env)
        } else {
            deps
        };
        lemma_with_targets_names(next, rest, target, features, env, name);
        lemma_with_group_names(deps, groups[0].dependencies, features, env, name);
        if some_target_activates(rest, name, target, features, env) {
            let g = choose|g: int|
                0 <= g < rest.len() && target_active((#[trigger] rest[g]).key, target, env) == Ok::<
                    bool,
                    ResolveErrorView,
                >(true) && activates(rest[g].dependencies, name, features, env);
            assert(groups[g + 1] == rest[g]);
        }
        if some_target_activates(groups, name, target, features, env) {
            let g = choose|g: int|
                0 <= g < groups.len() && target_active((#[trigger] groups[g]).key, target, env)
                    == Ok::<bool, ResolveErrorView>(true) && activates(
                    groups[g].dependencies,
                    name,
                    features,
                    env,
                );
            if g > 0 {
                assert(rest[g - 1] == groups[g]);
            }
        }
    }
}

/// Which names a resolution holds: those of which the unconditional
/// dependencies, or the dependencies of a target group that applies, hold an
/// active declaration.
pub proof fn lemma_resolved_names(manifest: ManifestView, env: EnvView, name: Seq<char>)
    requires
        resolved(manifest, env) is Ok,
    ensures
        resolved(manifest, env)->Ok_0.contains_key(name) <==> {
            let features = feature_map(manifest.features, env)->Ok_0;
            let target = env_text(env, "TARGET"@)->Some_0;
            activates(manifest.dependencies, name, features, env) || some_target_activates(
                manifest.targets,
                name,
                target,
                features,
                env,
            )
        },
{
    let features = feature_map(manifest.features, env)->Ok_0;
    let target = env_text(env, "TARGET"@)->Some_0;
    let base = with_group(DependencyMapView::empty(), manifest.dependencies, features, env);
    lemma_with_group_names(DependencyMapView::empty(), manifest.dependencies, features, env, name);
    lemma_with_targets_names(base, manifest.targets, target, features, env, name);
}

/// Whether every declaration of `name` in the manifest, unconditional or in a
/// target group, is optional.
pub open spec fn only_optional(manifest: ManifestView, name: Seq<char>) -> bool {
    &&& forall|i: int|
        0 <= i < manifest.dependencies.len() && (#[trigger] manifest.dependencies[i]).name == name
            ==> is_optional(manifest.dependencies[i].decl)
    &&& forall|g: int, i: int|
        0 <= g < manifest.targets.len() && 0 <= i < manifest.targets[g].dependencies.len() && (
        #[trigger] manifest.targets[g].dependencies[i]).name == name ==> is_optional(
            manifest.targets[g].dependencies[i].decl,
        )
}

/// Whether a declaration is marked optional.
pub open spec fn is_optional(decl: crate::manifest::DeclarationView) -> bool {
    match decl {
        crate::manifest::DeclarationView::Simple(_) => false,
        crate::manifest::DeclarationView::Inherited(d) => d.optional,
        crate::manifest::DeclarationView::Detailed(d) => d.optional,
    }
}

/// A dependency that is optional wherever it is declared, and whose feature
/// the environment does not signal, is absent from the resolution.
pub proof fn lemma_optional_is_absent(manifest: ManifestView, env: EnvView, name: Seq<char>)
    requires
        resolved(manifest, env) is Ok,
        only_optional(manifest, name),
        !env_is_set(env, feature_key(name)),
    ensures
        !resolved(manifest, env)->Ok_0.contains_key(name),
{
    let features = feature_map(manifest.features, env)->Ok_0;
    let target = env_text(env, "TARGET"@)->Some_0;
    lemma_resolved_names(manifest, env, name);
    if activates(manifest.dependencies, name, features, env) {
        let i = choose|i: int|
            0 <= i < manifest.dependencies.len() && (#[trigger] manifest.dependencies[i]).name
                == name && activation(features, name, manifest.dependencies[i].decl, env) is Some;
        crate::active::lemma_optional_is_left_out(
            features,
            name,
            manifest.dependencies[i].decl,
            env,
        );
    }
    if some_target_activates(manifest.targets, name, target, features, env) {
        let g = choose|g: int|
            0 <= g < manifest.targets.len() && target_active(
                (#[trigger] manifest.targets[g]).key,
                target,
                env,
            ) == Ok::<bool, ResolveErrorView>(true) && activates(
                manifest.targets[g].dependencies,
                name,
                features,
                env,
            );
        let group = manifest.targets[g].dependencies;
        let i = choose|i: int|
            0 <= i < group.len() && (#[trigger] group[i]).name == name && activation(
                features,
                name,
                group[i].decl,
                env,
            ) is Some;
        crate::active::lemma_optional_is_left_out(features, name, group[i].decl, env);
    }
}

/// Resolving is a function of the manifest's content and the environment: two
/// results for the same content and the same environment are the same, error
/// or map.
pub proof fn lemma_same_inputs_same_result(
    content: Seq<u8>,
    env: EnvView,
    first: Result<DependencyMap, ResolveError>,
    second: Result<DependencyMap, ResolveError>,
)
    requires
        result_view(first) == enumerated(content, env),
        result_view(second) == enumerated(content, env),
    ensures
        result_view(first) == result_view(second),
        first matches Ok(a) ==> second matches Ok(b) && a@ == b@,
{
}

/// Records the directives of `feature` in `map`, from left to right, up to the
/// first that is not of the form `dependency/feature`.
fn add_directives(map: &mut FeatureMap, feature: &Feature) -> (r: Result<(), ResolveError>)
    ensures
        match with_directives(old(map)@, feature@.directives) {
            Ok(next) => r is Ok && final(map)@ == next,
            Err(directive) => r matches Err(e) && e@ == (ResolveErrorView::Directive {
                feature: feature@.name,
                directive,
            }),
        },
{
    let n = feature.directives.len();
    let ghost all = feature@.directives;
    let mut i: usize = 0;
    proof {
        assert(all.skip(0) =~= all);
    }
    while i < n
        invariant
            i <= n,
            n == feature.directives@.len(),
            all == feature@.directives,
            with_directives(old(map)@, all) == with_directives(map@, all.skip(i as int)),
        decreases n - i,
    {
        proof {
            assert(all.skip(i as int)[0] == feature.directives@[i as int]@);
            assert(all.skip(i as int).drop_first() =~= all.skip(i + 1));
        }
        match split_in_two(feature.directives[i].as_str(), '/') {
            Some((dep, wanted)) => {
                map.add(dep, wanted);
            },
            None => {
                return Err(
                    ResolveError::Directive {
                        feature: feature.name.clone(),
                        directive: feature.directives[i].clone(),
                    },
                );
            },
        }
        i += 1;
    }
    Ok(())
}

/// The feature activation map: which features the enabled features of the
/// package ask of which dependency.
pub fn active_features(features: &Vec<Feature>, env: &Environment) -> (r: Result<
    FeatureMap,
    ResolveError,
>)
    ensures
        result_view(r) == feature_map(features_of(features@), env@),
{
    let mut map = FeatureMap::new();
    let n = features.len();
    let ghost all = features_of(features@);
    let mut i: usize = 0;
    proof {
        assert(all.skip(0) =~= all);
    }
    while i < n
        invariant
            i <= n,
            n == features@.len(),
            all == features_of(features@),
            feature_map(all, env@) == with_features(map@, all.skip(i as int), env@),
        decreases n - i,
    {
        proof {
            assert(all.skip(i as int)[0] == features@[i as int]@);
            assert(all.skip(i as int).drop_first() =~= all.skip(i + 1));
        }
        if feature_enabled(features[i].name.as_str(), env) {
            match add_directives(&mut map, &features[i]) {
                Ok(()) => {},
                Err(e) => {
                    return Err(e);
                },
            }
        }
        i += 1;
    }
    Ok(map)
}

/// Applies the activation rule to each declaration of `group` and puts those
/// that are active into `deps`.
pub fn add_group(
    deps: &mut DependencyMap,
    group: &Vec<NamedDeclaration>,
    features: &FeatureMap,
    env: &Environment,
)
    ensures
        final(deps)@ == with_group(old(deps)@, declarations(group@), features@, env@),
{
    let n = group.len();
    let ghost all = declarations(group@);
    let mut i: usize = 0;
    proof {
        assert(all.skip(0) =~= all);
    }
    while i < n
        invariant
            i <= n,
            n == group@.len(),
            all == declarations(group@),
            with_group(old(deps)@, all, features@, env@) == with_group(
                deps@,
                all.skip(i as int),
                features@,
                env@,
            ),
        decreases n - i,
    {
        proof {
            assert(all.skip(i as int)[0] == group@[i as int]@);
            assert(all.skip(i as int).drop_first() =~= all.skip(i + 1));
        }
        if let Some(active) = get_activedep(features, group[i].name.as_str(), &group[i].decl, env) {
            deps.insert(group[i].name.clone(), active);
        }
        i += 1;
    }
}

/// Whether the target group under `key` applies to the build for `target`.
pub fn target_is_active(key: &str, target: &str, env: &Environment) -> (r: Result<
    bool,
    ResolveError,
>)
    ensures
        result_view(r) == target_active(key@, target@, env@),
{
    if starts_with(key, "cfg") {
        match parse_predicate(key) {
            None => Err(ResolveError::PredicateSyntax { key: key.to_owned() }),
            Some(root) => match check_cfg_root(&root, env) {
                None => Err(ResolveError::PredicateUnsupported { key: key.to_owned() }),
                Some(holds) => Ok(holds),
            },
        }
    } else {
        Ok(text_eq(key, target))
    }
}

/// The dependencies of `manifest` that are active in the environment `env`.
pub fn resolve(manifest: &Manifest, env: &Environment) -> (r: Result<DependencyMap, ResolveError>)
    ensures
        result_view(r) == resolved(manifest@, env@),
{
    let features = match active_features(&manifest.features, env) {
        Ok(map) => map,
        Err(e) => {
            return Err(e);
        },
    };
    let mut deps = DependencyMap::new();
    add_group(&mut deps, &manifest.dependencies, &features, env);
    let target = match env.text("TARGET") {
        Some(name) => name,
        None => {
            return Err(ResolveError::Target);
        },
    };
    let n = manifest.targets.len();
    let ghost all = groups_of(manifest.targets@);
    let ghost base = deps@;
    let mut i: usize = 0;
    proof {
        assert(all.skip(0) =~= all);
    }
    while i < n
        invariant
            i <= n,
            n == manifest.targets@.len(),
            all == groups_of(manifest.targets@),
            resolved(manifest@, env@) == with_targets(base, all, target@, features@, env@),
            with_targets(base, all, target@, features@, env@) == with_targets(
                deps@,
                all.skip(i as int),
                target@,
                features@,
                env@,
            ),
        decreases n - i,
    {
        proof {
            assert(all.skip(i as int)[0] == manifest.targets@[i as int]@);
            assert(all.skip(i as int).drop_first() =~= all.skip(i + 1));
        }
        match target_is_active(manifest.targets[i].key.as_str(), target.as_str(), env) {
            Err(e) => {
                return Err(e);
            },
            Ok(applies) => {
                if applies {
                    add_group(&mut deps, &manifest.targets[i].dependencies, &features, env);
                }
            },
        }
        i += 1;
    }
    Ok(deps)
}

/// The dependencies that are active in the environment `env`, for the package
/// whose manifest has the content `content`.
pub fn enumerate(content: &[u8], env: &Environment) -> (r: Result<DependencyMap, ResolveError>)
    ensures
        result_view(r) == enumerated(content@, env@),
{
    match parse_manifest(content) {
        None => Err(ResolveError::Manifest),
        Some(manifest) => resolve(&manifest, env),
    }
}

} // verus!
