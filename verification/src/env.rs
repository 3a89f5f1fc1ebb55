//! A snapshot of the environment that the build tool hands to a build step.

use vstd::prelude::*;
use crate::str_map::StrMap;
use crate::text::text_eq;

verus! {

/// What a snapshot holds, as a map: each variable that is set, with its value as
/// text, or with `None` where the value is not valid Unicode.
pub type EnvView = Map<Seq<char>, Option<Seq<char>>>;

/// Whether the variable `name` is set, whatever its value.
pub open spec fn env_is_set(env: EnvView, name: Seq<char>) -> bool {
    env.contains_key(name)
}

/// The value of the variable `name`, where it is set and is valid Unicode.
pub open spec fn env_text(env: EnvView, name: Seq<char>) -> Option<Seq<char>> {
    if env.contains_key(name) {
        env[name]
    } else {
        None
    }
}

/// The text of an optional string.
pub open spec fn opt_text(s: Option<String>) -> Option<Seq<char>> {
    match s {
        Some(t) => Some(t@),
        None => None,
    }
}

/// A fixed set of environment variables.
pub struct Environment {
    vars: StrMap<Option<String>>,
}

impl View for Environment {
    type V = EnvView;

    closed spec fn view(&self) -> EnvView {
        self.vars@.map_values(|v: Option<String>| opt_text(v))
    }
}

impl Environment {
    /// The snapshot in which no variable is set.
    pub fn new() -> (r: Self)
        ensures
            r@ == EnvView::empty(),
    {
        let r = Environment { vars: StrMap::new() };
        proof {
            assert(r@ =~= EnvView::empty());
        }
        r
    }

    /// Sets the variable `name` to the text `value`.
    pub fn set(&mut self, name: &str, value: &str)
        ensures
            final(self)@ == old(self)@.insert(name@, Some(value@)),
    {
        self.vars.insert(name.to_owned(), Some(value.to_owned()));
        proof {
            assert(self@ =~= old(self)@.insert(name@, Some(value@)));
        }
    }

    /// Sets the variable `name` to a value that is not valid Unicode.
    pub fn set_non_unicode(&mut self, name: &str)
        ensures
            final(self)@ == old(self)@.insert(name@, None),
    {
        self.vars.insert(name.to_owned(), None);
        proof {
            assert(self@ =~= old(self)@.insert(name@, None));
        }
    }

    /// Whether the variable `name` is set, whatever its value.
    pub fn is_set(&self, name: &str) -> (r: bool)
        ensures
            r == env_is_set(self@, name@),
    {
        self.vars.contains_key(name)
    }

    /// The value of the variable `name`, where it is set and is valid Unicode.
    pub fn text(&self, name: &str) -> (r: Option<&String>)
        ensures
            match r {
                Some(s) => env_text(self@, name@) == Some(s@),
                None => env_text(self@, name@) is None,
            },
    {
        match self.vars.get(name) {
            Some(Some(s)) => Some(s),
            _ => None,
        }
    }

    /// Whether the variable `name` is set to exactly the text `value`.
    pub fn holds(&self, name: &str, value: &str) -> (r: bool)
        ensures
            r == (env_text(self@, name@) == Some(value@)),
    {
        match self.text(name) {
            Some(s) => text_eq(s.as_str(), value),
            None => false,
        }
    }
}

} // verus!
