//! The registry of installed packages: a mapping from package name to
//! the installed record, abstracted as a map from name to version.
//!
//! The representation is a vector of records with pairwise-distinct
//! names; every entry's key equals its record's name by construction.

use vstd::prelude::*;
use vstd::string::*;

use crate::text::str_eq;

verus! {

/// One installed package: its name and its installed version.
#[derive(Debug, Clone, PartialEq)]
pub struct Package {
    /// The package name.
    pub name: String,
    /// The installed version.
    pub version: String,
}

impl Package {
    /// Creates a new package record.
    pub fn new(name: String, version: String) -> (r: Self)
        ensures
            r.name == name,
            r.version == version,
    {
        Self { name, version }
    }
}

/// The registry of installed packages.
#[derive(Debug)]
pub struct PackageRegistry {
    packages: Vec<Package>,
}

/// The map that a sequence of records stands for; a later record with
/// the same name would win, though well-formed registries have none.
spec fn map_of(s: Seq<Package>) -> Map<Seq<char>, Seq<char>>
    decreases s.len(),
{
    if s.len() == 0 {
        Map::empty()
    } else {
        map_of(s.drop_last()).insert(s.last().name@, s.last().version@)
    }
}

spec fn distinct_names(s: Seq<Package>) -> bool {
    forall|i: int, j: int| 0 <= i < j < s.len() ==> s[i].name@ != s[j].name@
}

proof fn lemma_map_of_contains(s: Seq<Package>, k: Seq<char>)
    ensures
        map_of(s).contains_key(k) <==> exists|i: int| 0 <= i < s.len() && s[i].name@ == k,
    decreases s.len(),
{
    if s.len() == 0 {
    } else {
        lemma_map_of_contains(s.drop_last(), k);
        if map_of(s).contains_key(k) {
            if s.last().name@ == k {
                assert(s[s.len() - 1].name@ == k);
            } else {
                let i = choose|i: int| 0 <= i < s.drop_last().len() && s.drop_last()[i].name@ == k;
                assert(s[i].name@ == k);
            }
        }
        if exists|i: int| 0 <= i < s.len() && s[i].name@ == k {
            let i = choose|i: int| 0 <= i < s.len() && s[i].name@ == k;
            if i == s.len() - 1 {
            } else {
                assert(s.drop_last()[i].name@ == k);
            }
        }
    }
}

proof fn lemma_map_of_index(s: Seq<Package>, i: int)
    requires
        distinct_names(s),
        0 <= i < s.len(),
    ensures
        map_of(s).contains_key(s[i].name@),
        map_of(s)[s[i].name@] == s[i].version@,
    decreases s.len(),
{
    lemma_map_of_contains(s, s[i].name@);
    if i == s.len() - 1 {
    } else {
        assert(s[i].name@ != s.last().name@);
        lemma_map_of_index(s.drop_last(), i);
    }
}

proof fn lemma_map_of_remove(s: Seq<Package>, i: int)
    requires
        distinct_names(s),
        0 <= i < s.len(),
    ensures
        map_of(s.remove(i)) == map_of(s).remove(s[i].name@),
    decreases s.len(),
{
    let k = s[i].name@;
    if i == s.len() - 1 {
        assert(s.remove(i) =~= s.drop_last());
        lemma_map_of_contains(s.drop_last(), k);
        assert(!map_of(s.drop_last()).contains_key(k));
        assert(map_of(s.drop_last()).insert(k, s.last().version@).remove(k) =~= map_of(
            s.drop_last(),
        ));
    } else {
        let front = s.drop_last();
        assert(s.remove(i).drop_last() =~= front.remove(i));
        assert(s.remove(i).last() == s.last());
        lemma_map_of_remove(front, i);
        assert(front[i].name@ == k);
        assert(k != s.last().name@);
        assert(map_of(front).remove(k).insert(s.last().name@, s.last().version@) =~= map_of(
            front,
        ).insert(s.last().name@, s.last().version@).remove(k));
    }
}

proof fn lemma_map_of_dom_len(s: Seq<Package>)
    requires
        distinct_names(s),
    ensures
        map_of(s).dom().finite(),
        map_of(s).dom().len() == s.len(),
    decreases s.len(),
{
    if s.len() == 0 {
        assert(map_of(s).dom() =~= Set::<Seq<char>>::empty());
    } else {
        let front = s.drop_last();
        lemma_map_of_dom_len(front);
        lemma_map_of_contains(front, s.last().name@);
        assert(!map_of(front).dom().contains(s.last().name@));
        assert(map_of(s).dom() =~= map_of(front).dom().insert(s.last().name@));
        vstd::set::axiom_set_insert_len(map_of(front).dom(), s.last().name@);
    }
}

impl View for PackageRegistry {
    type V = Map<Seq<char>, Seq<char>>;

    closed spec fn view(&self) -> Map<Seq<char>, Seq<char>> {
        map_of(self.packages@)
    }
}

impl PackageRegistry {
    /// The internal representation is consistent: names are pairwise
    /// distinct, so each name stands for exactly one record.
    pub closed spec fn wf(self) -> bool {
        distinct_names(self.packages@)
    }

    /// Creates a new empty registry.
    pub fn new() -> (r: Self)
        ensures
            r.wf(),
            r@ == Map::<Seq<char>, Seq<char>>::empty(),
    {
        Self { packages: Vec::new() }
    }

    /// Adds a package to the registry, replacing any record of the
    /// same name.
    pub fn add_package(&mut self, package: Package)
        requires
            old(self).wf(),
        ensures
            final(self).wf(),
            final(self)@ == old(self)@.insert(package.name@, package.version@),
    {
        let ghost pre = self@;
        let _ = self.remove_package(package.name.as_str());
        proof {
            lemma_map_of_contains(self.packages@, package.name@);
        }
        let ghost mid = self.packages@;
        self.packages.push(package);
        proof {
            assert(self.packages@.drop_last() =~= mid);
            assert(forall|i: int|
                0 <= i < mid.len() ==> mid[i].name@ != self.packages@.last().name@);
            assert(map_of(self.packages@) =~= pre.insert(package.name@, package.version@));
        }
    }

    /// Removes the record with the given name, returning it if present.
    pub fn remove_package(&mut self, name: &str) -> (r: Option<Package>)
        requires
            old(self).wf(),
        ensures
            final(self).wf(),
            final(self)@ == old(self)@.remove(name@),
            match r {
                Some(p) => old(self)@.contains_key(name@) && p.name@ == name@ && p.version@
                    == old(self)@[name@],
                None => !old(self)@.contains_key(name@),
            },
    {
        let ghost s0 = self.packages@;
        let n = self.packages.len();
        let mut i: usize = 0;
        while i < n
            invariant
                self.packages@ == s0,
                old(self).packages@ == s0,
                distinct_names(s0),
                n == s0.len(),
                0 <= i <= n,
                forall|j: int| 0 <= j < i ==> s0[j].name@ != name@,
            decreases n - i,
        {
            if str_eq(self.packages[i].name.as_str(), name) {
                proof {
                    assert(s0[i as int].name@ == name@);
                    lemma_map_of_index(s0, i as int);
                    lemma_map_of_remove(s0, i as int);
                }
                let p = self.packages.remove(i);
                proof {
                    assert(self.packages@ == s0.remove(i as int));
                    assert(p == s0[i as int]);
                    assert(map_of(self.packages@) == map_of(s0).remove(name@));
                }
                proof {
                    assert(distinct_names(self.packages@)) by {
                        assert(forall|a: int|
                            0 <= a < self.packages@.len() ==> self.packages@[a] == (if a < i {
                                s0[a]
                            } else {
                                s0[a + 1]
                            }));
                    }
                }
                return Some(p);
            }
            i = i + 1;
        }
        proof {
            lemma_map_of_contains(s0, name@);
            assert(!map_of(s0).contains_key(name@));
            assert(map_of(s0).remove(name@) =~= map_of(s0));
        }
        None
    }

    /// Looks up the record with the given name.
    pub fn get_package(&self, name: &str) -> (r: Option<&Package>)
        requires
            self.wf(),
        ensures
            match r {
                Some(p) => self@.contains_key(name@) && p.name@ == name@ && p.version@
                    == self@[name@],
                None => !self@.contains_key(name@),
            },
    {
        let ghost s0 = self.packages@;
        let n = self.packages.len();
        let mut i: usize = 0;
        while i < n
            invariant
                self.packages@ == s0,
                distinct_names(s0),
                n == s0.len(),
                0 <= i <= n,
                forall|j: int| 0 <= j < i ==> s0[j].name@ != name@,
            decreases n - i,
        {
            if str_eq(self.packages[i].name.as_str(), name) {
                proof {
                    lemma_map_of_index(s0, i as int);
                }
                return Some(&self.packages[i]);
            }
            i = i + 1;
        }
        proof {
            lemma_map_of_contains(s0, name@);
        }
        None
    }

    /// Whether the registry holds no package at all.
    pub fn is_empty(&self) -> (r: bool)
        requires
            self.wf(),
        ensures
            r == (self@.dom() == Set::<Seq<char>>::empty()),
    {
        let r = self.packages.is_empty();
        proof {
            if self.packages@.len() == 0 {
                assert(self@.dom() =~= Set::<Seq<char>>::empty());
            } else {
                lemma_map_of_index(self.packages@, 0);
                assert(self@.dom().contains(self.packages@[0].name@));
                assert(self@.dom() != Set::<Seq<char>>::empty());
            }
        }
        r
    }

    /// The number of packages in the registry.
    pub fn count(&self) -> (r: usize)
        requires
            self.wf(),
        ensures
            r == self@.dom().len(),
    {
        proof {
            lemma_map_of_dom_len(self.packages@);
        }
        self.packages.len()
    }

    /// The records themselves, in their internal order: one record per
    /// registry entry, each agreeing with the map the registry stands for.
    pub fn records(&self) -> (r: &Vec<Package>)
        requires
            self.wf(),
        ensures
            r@.len() == self@.dom().len(),
            forall|i: int|
                0 <= i < r@.len() ==> self@.contains_key(#[trigger] r@[i].name@) && self@[r@[i].name@]
                    == r@[i].version@,
            forall|i: int, j: int| 0 <= i < j < r@.len() ==> r@[i].name@ != r@[j].name@,
            forall|k: Seq<char>|
                self@.contains_key(k) ==> exists|i: int| 0 <= i < r@.len() && #[trigger] r@[i].name@ == k,
    {
        proof {
            lemma_map_of_dom_len(self.packages@);
            assert forall|i: int| 0 <= i < self.packages@.len() implies self@.contains_key(
                #[trigger] self.packages@[i].name@,
            ) && self@[self.packages@[i].name@] == self.packages@[i].version@ by {
                lemma_map_of_index(self.packages@, i);
            }
            assert forall|k: Seq<char>| self@.contains_key(k) implies exists|i: int|
                0 <= i < self.packages@.len() && #[trigger] self.packages@[i].name@ == k by {
                lemma_map_of_contains(self.packages@, k);
            }
        }
        &self.packages
    }
}

impl Default for PackageRegistry {
    /// An empty registry.
    fn default() -> (r: Self)
        ensures
            r.wf(),
            r@ == Map::<Seq<char>, Seq<char>>::empty(),
    {
        Self { packages: Vec::new() }
    }
}

} // verus!
