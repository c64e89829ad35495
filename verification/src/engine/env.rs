//! Scoped environments: names to entries, with a chain of parent scopes.

use vstd::hash_map::StringHashMap;
use vstd::prelude::*;

verus! {

/// A mapping from names to entries with an optional parent scope.
///
/// A lookup tries this scope first and then the parent chain; a `set`
/// changes this scope only.
#[verifier::reject_recursive_types(T)]
pub struct Env<T> {
    env: StringHashMap<T>,
    parent: Option<Box<Env<T>>>,
}

impl<T: Clone> Env<T> {
    /// The entries of this scope itself.
    pub closed spec fn scope(&self) -> Map<Seq<char>, T> {
        self.env@
    }

    /// The scope around this one.
    pub closed spec fn parent(&self) -> Option<Env<T>> {
        match self.parent {
            Some(p) => Some(*p),
            None => None,
        }
    }

    /// The entry that `key` resolves to: that of the innermost scope that
    /// has one.
    pub closed spec fn lookup(&self, key: Seq<char>) -> Option<T>
        decreases self,
    {
        if self.env@.contains_key(key) {
            Some(self.env@[key])
        } else {
            match self.parent {
                Some(p) => p.lookup(key),
                None => None,
            }
        }
    }

    /// All that can be seen from this scope: each name that resolves, with
    /// the entry that it resolves to.
    pub open spec fn bindings(&self) -> Map<Seq<char>, T> {
        Map::new(|key: Seq<char>| self.lookup(key) is Some, |key: Seq<char>| self.lookup(key).unwrap())
    }

    /// A lookup is the entry of this scope, else the lookup in the parent.
    pub proof fn lemma_lookup(&self, key: Seq<char>)
        ensures
            self.lookup(key) == (if self.scope().contains_key(key) {
                Some(self.scope()[key])
            } else {
                match self.parent() {
                    Some(p) => p.lookup(key),
                    None => None,
                }
            }),
    {
    }

    /// An empty scope inside `parent`.
    pub fn new(parent: Option<Box<Env<T>>>) -> (r: Self)
        ensures
            r.scope() == Map::<Seq<char>, T>::empty(),
            r.parent() == (match parent {
                Some(p) => Some(*p),
                None => None,
            }),
            forall|key: Seq<char>|
                #[trigger] r.lookup(key) == (match parent {
                    Some(p) => p.lookup(key),
                    None => None,
                }),
    {
        Env { env: StringHashMap::new(), parent }
    }

    /// Whether `key` resolves in this scope or in one around it.
    pub fn has(&self, key: &str) -> (r: bool)
        ensures
            r == self.lookup(key@).is_some(),
        decreases self,
    {
        if self.env.contains_key(key) {
            true
        } else {
            match &self.parent {
                Some(p) => p.has(key),
                None => false,
            }
        }
    }

    /// A clone of the entry that `key` resolves to.
    pub fn get(&self, key: &str) -> (r: Option<T>)
        ensures
            match r {
                Some(v) => self.lookup(key@) matches Some(x) && cloned(x, v),
                None => self.lookup(key@) is None,
            },
        decreases self,
    {
        match self.env.get(key) {
            Some(v) => Some(v.clone()),
            None => match &self.parent {
                Some(p) => p.get(key),
                None => None,
            },
        }
    }

    /// Binds `key` to `value` in this scope; the last write wins.
    pub fn set(&mut self, key: String, value: T)
        ensures
            final(self).scope() == old(self).scope().insert(key@, value),
            final(self).parent() == old(self).parent(),
            forall|other: Seq<char>|
                #[trigger] final(self).lookup(other) == (if other == key@ {
                    Some(value)
                } else {
                    old(self).lookup(other)
                }),
            final(self).bindings() == old(self).bindings().insert(key@, value),
    {
        self.env.insert(key, value);
        assert(self.bindings() =~= old(self).bindings().insert(key@, value));
    }
}

} // verus!
