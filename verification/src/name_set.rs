//! A finite set of names.

use vstd::prelude::*;
use crate::str_map::StrMap;
use crate::text::texts;

verus! {

/// A finite set of names, each held once.
#[derive(Debug)]
pub struct NameSet {
    names: StrMap<()>,
}

impl View for NameSet {
    type V = Set<Seq<char>>;

    closed spec fn view(&self) -> Set<Seq<char>> {
        self.names@.dom()
    }
}

impl NameSet {
    /// The empty set.
    pub fn new() -> (r: Self)
        ensures
            r@ == Set::<Seq<char>>::empty(),
    {
        let r = NameSet { names: StrMap::new() };
        proof {
            assert(r@ =~= Set::<Seq<char>>::empty());
        }
        r
    }

    /// Adds `name` to the set.
    pub fn insert(&mut self, name: String)
        ensures
            final(self)@ == old(self)@.insert(name@),
    {
        self.names.insert(name, ());
        proof {
            assert(self@ =~= old(self)@.insert(name@));
        }
    }

    /// Whether `name` is in the set.
    pub fn contains(&self, name: &str) -> (r: bool)
        ensures
            r == self@.contains(name@),
    {
        self.names.contains_key(name)
    }

    /// The number of names in the set.
    pub fn len(&self) -> (r: usize)
        ensures
            self@.finite(),
            r == self@.len(),
    {
        self.names.len()
    }

    /// The names in the set, each once.
    pub fn names(&self) -> (r: Vec<String>)
        ensures
            texts(r@).no_duplicates(),
            texts(r@).to_set() == self@,
    {
        self.names.keys()
    }

    /// Adds every name of `names` to the set.
    pub fn extend(&mut self, names: &Vec<String>)
        ensures
            final(self)@ == old(self)@ + texts(names@).to_set(),
    {
        let n = names.len();
        let mut i: usize = 0;
        while i < n
            invariant
                i <= n,
                n == names@.len(),
                self@ == old(self)@ + texts(names@).take(i as int).to_set(),
            decreases n - i,
        {
            self.insert(names[i].clone());
            proof {
                let t = texts(names@);
                assert(t.take(i + 1) =~= t.take(i as int).push(t[i as int]));
                t.take(i as int).lemma_push_to_set_commute(t[i as int]);
                assert(self@ =~= old(self)@ + t.take(i + 1).to_set());
            }
            i += 1;
        }
        proof {
            assert(texts(names@).take(n as int) =~= texts(names@));
        }
    }
}

impl Clone for NameSet {
    fn clone(&self) -> (r: Self)
        ensures
            r@ == self@,
    {
        let names = self.names();
        let mut r = NameSet::new();
        r.extend(&names);
        proof {
            assert(r@ =~= self@);
        }
        r
    }
}

} // verus!
