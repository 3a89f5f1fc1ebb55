//! The result of a resolution: the active dependencies by name.

use vstd::prelude::*;
use crate::active::{ActiveDependency, ActiveDependencyView};
use crate::text::texts;
use crate::str_map::StrMap;

verus! {

/// The active dependencies by name, as a mathematical map.
pub type DependencyMapView = Map<Seq<char>, ActiveDependencyView>;

/// The active dependencies of a package, each under its name.
#[derive(Debug)]
pub struct DependencyMap {
    deps: StrMap<ActiveDependency>,
}

impl View for DependencyMap {
    type V = DependencyMapView;

    closed spec fn view(&self) -> DependencyMapView {
        self.deps@.map_values(|d: ActiveDependency| d@)
    }
}

impl DependencyMap {
    /// The map without any dependency.
    pub fn new() -> (r: Self)
        ensures
            r@ == DependencyMapView::empty(),
    {
        let r = DependencyMap { deps: StrMap::new() };
        proof {
            assert(r@ =~= DependencyMapView::empty());
        }
        r
    }

    /// Puts `dep` under `name`, in place of what was there, if anything.
    pub fn insert(&mut self, name: String, dep: ActiveDependency)
        ensures
            final(self)@ == old(self)@.insert(name@, dep@),
    {
        self.deps.insert(name, dep);
        proof {
            assert(self@ =~= old(self)@.insert(name@, dep@));
        }
    }

    /// The dependency under `name`, if there is one.
    pub fn get(&self, name: &str) -> (r: Option<&ActiveDependency>)
        ensures
            match r {
                Some(dep) => self@.contains_key(name@) && dep@ == self@[name@],
                None => !self@.contains_key(name@),
            },
    {
        self.deps.get(name)
    }

    /// Whether there is a dependency under `name`.
    pub fn contains_key(&self, name: &str) -> (r: bool)
        ensures
            r == self@.contains_key(name@),
    {
        self.deps.contains_key(name)
    }

    /// The number of dependencies.
    pub fn len(&self) -> (r: usize)
        ensures
            self@.dom().finite(),
            r == self@.dom().len(),
    {
        let r = self.deps.len();
        proof {
            assert(self@.dom() =~= self.deps@.dom());
        }
        r
    }

    /// The names of the dependencies, each once.
    pub fn names(&self) -> (r: Vec<String>)
        ensures
            texts(r@).no_duplicates(),
            texts(r@).to_set() == self@.dom(),
    {
        let r = self.deps.keys();
        proof {
            assert(self@.dom() =~= self.deps@.dom());
        }
        r
    }
}

} // verus!
