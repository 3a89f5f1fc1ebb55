//! Which features of which dependencies the package's enabled features ask for.

use vstd::prelude::*;
use crate::name_set::NameSet;
use crate::str_map::StrMap;

verus! {

/// For each dependency that is named, the features asked of it.
pub type FeatureMapView = Map<Seq<char>, Set<Seq<char>>>;

/// The features asked of the dependency `name`: none where it is not named.
pub open spec fn requested(map: FeatureMapView, name: Seq<char>) -> Set<Seq<char>> {
    if map.contains_key(name) {
        map[name]
    } else {
        Set::empty()
    }
}

/// The map after `feature` is asked of the dependency `dep`.
pub open spec fn with_feature(map: FeatureMapView, dep: Seq<char>, feature: Seq<char>) -> FeatureMapView {
    map.insert(dep, requested(map, dep).insert(feature))
}

/// The features that are asked of each dependency.
#[derive(Debug)]
pub struct FeatureMap {
    sets: StrMap<NameSet>,
}

impl View for FeatureMap {
    type V = FeatureMapView;

    closed spec fn view(&self) -> FeatureMapView {
        self.sets@.map_values(|s: NameSet| s@)
    }
}

impl FeatureMap {
    /// The map that asks nothing of any dependency.
    pub fn new() -> (r: Self)
        ensures
            r@ == FeatureMapView::empty(),
    {
        let r = FeatureMap { sets: StrMap::new() };
        proof {
            assert(r@ =~= FeatureMapView::empty());
        }
        r
    }

    /// The features asked of the dependency `name`.
    pub fn requested(&self, name: &str) -> (r: NameSet)
        ensures
            r@ == requested(self@, name@),
    {
        match self.sets.get(name) {
            Some(set) => set.clone(),
            None => NameSet::new(),
        }
    }

    /// Asks `feature` of the dependency `dep`.
    pub fn add(&mut self, dep: String, feature: String)
        ensures
            final(self)@ == with_feature(old(self)@, dep@, feature@),
    {
        let mut set = self.requested(dep.as_str());
        set.insert(feature);
        self.sets.insert(dep, set);
        proof {
            assert(self@ =~= with_feature(old(self)@, dep@, feature@));
        }
    }
}

} // verus!
