//! The mesh registry: named tile meshes.
//!
//! The renderer looks meshes up by the tile's stable name — its tile-grid
//! coordinates — so a reload can replace a tile's mesh without disturbing
//! anything else. The registry is an association list with an invariant that
//! no two entries ever share a name; its view is the [`Map`] from names to
//! meshes, and every operation is specified against that map.

use crate::mesh::TileMesh;
use crate::tile::TileKey;
use vstd::prelude::*;

verus! {

/// The map denoted by an association list, later entries winning.
pub open spec fn seq_to_map(s: Seq<(TileKey, TileMesh)>) -> Map<TileKey, TileMesh>
    decreases s.len(),
{
    if s.len() == 0 {
        Map::empty()
    } else {
        seq_to_map(s.drop_last()).insert(s.last().0, s.last().1)
    }
}

/// No two entries of `s` share a key.
pub open spec fn unique_keys(s: Seq<(TileKey, TileMesh)>) -> bool {
    forall|i: int, j: int| 0 <= i < j < s.len() ==> (#[trigger] s[i]).0 != (#[trigger] s[j]).0
}

/// A key is in the map of `s` exactly when some entry carries it.
proof fn lemma_seq_to_map_domain(s: Seq<(TileKey, TileMesh)>, key: TileKey)
    ensures
        seq_to_map(s).dom().contains(key) <==> exists|i: int| 0 <= i < s.len() && (#[trigger] s[i]).0
            == key,
    decreases s.len(),
{
    if s.len() > 0 {
        lemma_seq_to_map_domain(s.drop_last(), key);
        if s.last().0 == key {
            assert(s[s.len() - 1].0 == key);
        } else {
            if exists|i: int| 0 <= i < s.drop_last().len() && (#[trigger] s.drop_last()[i]).0
                == key {
                let i = choose|i: int|
                    0 <= i < s.drop_last().len() && (#[trigger] s.drop_last()[i]).0 == key;
                assert(s[i].0 == key);
            }
            if exists|i: int| 0 <= i < s.len() && (#[trigger] s[i]).0 == key {
                let i = choose|i: int| 0 <= i < s.len() && (#[trigger] s[i]).0 == key;
                assert(i < s.len() - 1);
                assert(s.drop_last()[i].0 == key);
            }
        }
    }
}

/// Under unique keys, the entry at `i` is what the map stores for its key.
proof fn lemma_seq_to_map_index(s: Seq<(TileKey, TileMesh)>, i: int)
    requires
        unique_keys(s),
        0 <= i < s.len(),
    ensures
        seq_to_map(s).dom().contains(s[i].0),
        seq_to_map(s)[s[i].0] == s[i].1,
    decreases s.len(),
{
    if i == s.len() - 1 {
        assert(s[i] == s.last());
    } else {
        assert(unique_keys(s.drop_last())) by {
            assert forall|a: int, b: int|
                0 <= a < b < s.drop_last().len() implies (#[trigger] s.drop_last()[a]).0 != (
            #[trigger] s.drop_last()[b]).0 by {
                assert(s[a] == s.drop_last()[a] && s[b] == s.drop_last()[b]);
            }
        }
        lemma_seq_to_map_index(s.drop_last(), i);
        assert(s.drop_last()[i] == s[i]);
        assert(s[i].0 != s.last().0);
    }
}

/// Removing the entry at `i` removes exactly its key from the map.
proof fn lemma_seq_to_map_remove(s: Seq<(TileKey, TileMesh)>, i: int)
    requires
        unique_keys(s),
        0 <= i < s.len(),
    ensures
        seq_to_map(s.remove(i)) == seq_to_map(s).remove(s[i].0),
    decreases s.len(),
{
    let key = s[i].0;
    if i == s.len() - 1 {
        assert(s.remove(i) =~= s.drop_last());
        lemma_seq_to_map_domain(s.drop_last(), key);
        assert(!seq_to_map(s.drop_last()).dom().contains(key)) by {
            if exists|j: int| 0 <= j < s.drop_last().len() && (#[trigger] s.drop_last()[j]).0
                == key {
                let j = choose|j: int|
                    0 <= j < s.drop_last().len() && (#[trigger] s.drop_last()[j]).0 == key;
                assert(s[j] == s.drop_last()[j]);
            }
        }
        assert(seq_to_map(s.drop_last()).insert(s.last().0, s.last().1).remove(key)
            =~= seq_to_map(s.drop_last()));
    } else {
        assert(unique_keys(s.drop_last())) by {
            assert forall|a: int, b: int|
                0 <= a < b < s.drop_last().len() implies (#[trigger] s.drop_last()[a]).0 != (
            #[trigger] s.drop_last()[b]).0 by {
                assert(s[a] == s.drop_last()[a] && s[b] == s.drop_last()[b]);
            }
        }
        assert(s.drop_last()[i] == s[i]);
        lemma_seq_to_map_remove(s.drop_last(), i);
        assert(s.remove(i).drop_last() =~= s.drop_last().remove(i));
        assert(s.remove(i).last() == s.last());
        assert(s.remove(i).len() == s.len() - 1 > 0);
        assert(key != s.last().0);
        assert(seq_to_map(s.drop_last()).remove(key).insert(s.last().0, s.last().1)
            =~= seq_to_map(s.drop_last()).insert(s.last().0, s.last().1).remove(key));
    }
}

/// Keeps the meshes of the terrain's tiles, one per tile name. The view is
/// the map from names to meshes; no two entries ever share a name.
pub struct MeshRegistry {
    entries: Vec<(TileKey, TileMesh)>,
}

impl MeshRegistry {
    /// The map from tile names to their meshes.
    pub closed spec fn view(self) -> Map<TileKey, TileMesh> {
        seq_to_map(self.entries@)
    }

    /// No two entries share a name.
    pub closed spec fn wf(self) -> bool {
        unique_keys(self.entries@)
    }

    /// An empty registry.
    pub fn new() -> (r: MeshRegistry)
        ensures
            r.wf(),
            r@ == Map::<TileKey, TileMesh>::empty(),
            r.len_spec() == 0,
    {
        MeshRegistry { entries: Vec::new() }
    }

    /// How many meshes are registered.
    pub closed spec fn len_spec(self) -> nat {
        self.entries@.len()
    }

    /// How many meshes are registered.
    pub fn len(&self) -> (r: usize)
        ensures
            r == self.len_spec(),
    {
        self.entries.len()
    }

    /// The position of `key` among the entries, if present.
    fn find(&self, key: &TileKey) -> (r: Option<usize>)
        ensures
            r matches Some(i) ==> i < self.entries@.len() && self.entries@[i as int].0 == *key,
            r is None ==> forall|i: int|
                0 <= i < self.entries@.len() ==> (#[trigger] self.entries@[i]).0 != *key,
    {
        let n = self.entries.len();
        let mut i: usize = 0;
        while i < n
            invariant
                n == self.entries@.len(),
                i <= n,
                forall|j: int| 0 <= j < i ==> (#[trigger] self.entries@[j]).0 != *key,
            decreases n - i,
        {
            if self.entries[i].0.tx == key.tx && self.entries[i].0.ty == key.ty {
                return Some(i);
            }
            i = i + 1;
        }
        None
    }

    /// Whether a mesh is registered under `key`.
    pub fn contains(&self, key: &TileKey) -> (r: bool)
        requires
            self.wf(),
        ensures
            r == self@.dom().contains(*key),
    {
        proof {
            lemma_seq_to_map_domain(self.entries@, *key);
        }
        match self.find(key) {
            Some(i) => {
                proof {
                    lemma_seq_to_map_index(self.entries@, i as int);
                }
                true
            },
            None => false,
        }
    }

    /// The mesh registered under `key`, if any.
    pub fn lookup(&self, key: &TileKey) -> (r: Option<&TileMesh>)
        requires
            self.wf(),
        ensures
            r matches Some(m) ==> self@.dom().contains(*key) && *m == self@[*key],
            r is None ==> !self@.dom().contains(*key),
    {
        proof {
            lemma_seq_to_map_domain(self.entries@, *key);
        }
        match self.find(key) {
            Some(i) => {
                proof {
                    lemma_seq_to_map_index(self.entries@, i as int);
                }
                Some(&self.entries[i].1)
            },
            None => None,
        }
    }

    /// Removes the mesh registered under `key`, if any; every other entry is
    /// untouched.
    pub fn remove(&mut self, key: &TileKey)
        requires
            old(self).wf(),
        ensures
            final(self).wf(),
            final(self)@ == old(self)@.remove(*key),
    {
        proof {
            lemma_seq_to_map_domain(self.entries@, *key);
        }
        match self.find(key) {
            Some(i) => {
                proof {
                    lemma_seq_to_map_remove(self.entries@, i as int);
                }
                let ghost s0 = self.entries@;
                self.entries.remove(i);
                proof {
                    assert(unique_keys(self.entries@)) by {
                        s0.remove_ensures(i as int);
                        assert forall|a: int, b: int|
                            0 <= a < b < self.entries@.len() implies (
                        #[trigger] self.entries@[a]).0 != (#[trigger] self.entries@[b]).0 by {
                            let aa = if a < i {
                                a
                            } else {
                                a + 1
                            };
                            let bb = if b < i {
                                b
                            } else {
                                b + 1
                            };
                            assert(self.entries@[a] == s0[aa] && self.entries@[b] == s0[bb]);
                        }
                    }
                }
            },
            None => {
                proof {
                    assert(!self@.dom().contains(*key));
                    assert(self@.remove(*key) =~= self@);
                }
            },
        }
    }

    /// Registers `mesh` under `key`, replacing whatever the name held.
    pub fn insert(&mut self, key: TileKey, mesh: TileMesh)
        requires
            old(self).wf(),
        ensures
            final(self).wf(),
            final(self)@ == old(self)@.insert(key, mesh),
    {
        let ghost m0 = self@;
        self.remove(&key);
        let ghost s1 = self.entries@;
        proof {
            lemma_seq_to_map_domain(s1, key);
        }
        self.entries.push((key, mesh));
        proof {
            assert(self.entries@.drop_last() =~= s1);
            assert(self.entries@.last() == (key, mesh));
            assert(self@ == seq_to_map(s1).insert(key, mesh));
            assert(self@ =~= m0.insert(key, mesh));
            assert(unique_keys(self.entries@)) by {
                assert forall|a: int, b: int|
                    0 <= a < b < self.entries@.len() implies (#[trigger] self.entries@[a]).0 != (
                #[trigger] self.entries@[b]).0 by {
                    if b < self.entries@.len() - 1 {
                        assert(self.entries@[a] == s1[a] && self.entries@[b] == s1[b]);
                    } else {
                        assert(self.entries@[a] == s1[a]);
                        assert(!seq_to_map(s1).dom().contains(key));
                    }
                }
            }
        }
    }
}

} // verus!
