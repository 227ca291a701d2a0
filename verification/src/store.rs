//! The shared path store: interning of path-data strings.
//!
//! Identical path-data strings are mapped to one stable id so that
//! repeated glyph shapes share one definition across the whole document.
//! Ids are 1-based and assigned in first-insertion order; the empty
//! path-data string always maps to id 0 and is never stored. The backing
//! map is an insertion-ordered map from an outside crate, held behind
//! trusted wrappers whose contracts speak of its entry list.

use vstd::prelude::*;
use indexmap::IndexMap;

verus! {

#[verifier::external_type_specification]
#[verifier::external_body]
#[verifier::reject_recursive_types(K)]
#[verifier::reject_recursive_types(V)]
#[verifier::reject_recursive_types(S)]
pub struct ExIndexMap<K, V, S>(IndexMap<K, V, S>);

/// The entries of the backing map, in its order: key text and value.
pub uninterp spec fn path_map_entries(m: IndexMap<String, usize>) -> Seq<(Seq<char>, usize)>;

/// Relies on `indexmap::IndexMap::new`: a new map has no entries.
#[verifier::external_body]
fn im_new() -> (m: IndexMap<String, usize>)
    ensures
        path_map_entries(m) == Seq::<(Seq<char>, usize)>::empty(),
{
    IndexMap::new()
}

/// Relies on `indexmap::IndexMap::get`: the value of the entry whose key
/// equals `k`, if one exists.
#[verifier::external_body]
fn im_get(m: &IndexMap<String, usize>, k: &String) -> (r: Option<usize>)
    ensures
        match r {
            Option::Some(v) => exists|i: int|
                0 <= i < path_map_entries(*m).len() && path_map_entries(*m)[i] == (k@, v),
            Option::None => forall|i: int|
                0 <= i < path_map_entries(*m).len() ==> (#[trigger] path_map_entries(*m)[i]).0
                    != k@,
        },
{
    m.get(k).copied()
}

/// Relies on `indexmap::IndexMap::insert`: a new key is appended last in
/// order; an existing key keeps its place and has its value updated.
#[verifier::external_body]
fn im_insert(m: &mut IndexMap<String, usize>, k: String, v: usize)
    ensures
        (forall|i: int|
            0 <= i < path_map_entries(*old(m)).len() ==> (#[trigger] path_map_entries(
                *old(m),
            )[i]).0 != k@) ==> path_map_entries(*final(m)) == path_map_entries(*old(m)).push(
            (k@, v),
        ),
        (exists|i: int|
            0 <= i < path_map_entries(*old(m)).len() && (#[trigger] path_map_entries(
                *old(m),
            )[i]).0 == k@) ==> {
            &&& path_map_entries(*final(m)).len() == path_map_entries(*old(m)).len()
            &&& forall|i: int|
                0 <= i < path_map_entries(*old(m)).len() ==> path_map_entries(*final(m))[i] == (
                if (#[trigger] path_map_entries(*old(m))[i]).0 == k@ {
                    (k@, v)
                } else {
                    path_map_entries(*old(m))[i]
                })
        },
{
    m.insert(k, v);
}

/// Relies on `indexmap::IndexMap::iter`: the entries, in their order.
#[verifier::external_body]
fn im_entries(m: &IndexMap<String, usize>) -> (r: Vec<(String, usize)>)
    ensures
        r@.len() == path_map_entries(*m).len(),
        forall|i: int|
            0 <= i < r@.len() ==> ((#[trigger] r@[i]).0@, r@[i].1) == path_map_entries(*m)[i],
{
    m.iter().map(|(k, v)| (k.clone(), *v)).collect()
}

/// The position of the first occurrence of `p` in `paths` (the length of
/// `paths` when it does not occur).
pub open spec fn first_index(paths: Seq<Seq<char>>, p: Seq<char>) -> int
    decreases paths.len(),
{
    if paths.len() == 0 {
        0
    } else if paths[0] == p {
        0
    } else {
        1 + first_index(paths.drop_first(), p)
    }
}

proof fn lemma_first_index(paths: Seq<Seq<char>>, p: Seq<char>)
    ensures
        paths.contains(p) ==> {
            &&& 0 <= first_index(paths, p) < paths.len()
            &&& paths[first_index(paths, p)] == p
            &&& forall|j: int| 0 <= j < first_index(paths, p) ==> paths[j] != p
        },
        !paths.contains(p) ==> first_index(paths, p) == paths.len(),
    decreases paths.len(),
{
    if paths.len() > 0 && paths[0] != p {
        lemma_first_index(paths.drop_first(), p);
        assert(paths.contains(p) ==> paths.drop_first().contains(p)) by {
            if paths.contains(p) {
                let i = choose|i: int| 0 <= i < paths.len() && paths[i] == p;
                assert(paths.drop_first()[i - 1] == p);
            }
        }
        assert forall|j: int|
            0 <= j < first_index(paths, p) implies paths[j] != p by {
            if j > 0 {
                assert(paths.drop_first()[j - 1] != p);
            }
        }
    }
}

/// What interning `p` does to the catalog: the empty path gets id 0 and
/// changes nothing; a path already present gets its existing id (its
/// position plus one) and changes nothing; a new path is appended and
/// gets the next id.
pub open spec fn spec_intern(paths: Seq<Seq<char>>, p: Seq<char>) -> (Seq<Seq<char>>, int) {
    if p.len() == 0 {
        (paths, 0)
    } else if paths.contains(p) {
        (paths, first_index(paths, p) + 1)
    } else {
        (paths.push(p), paths.len() as int + 1)
    }
}

/// Interning is idempotent: interning the same path twice returns the
/// same id both times and leaves the catalog as it was after the first
/// time; the empty path always returns id 0 and never grows the catalog.
pub proof fn lemma_intern_idempotent(paths: Seq<Seq<char>>, p: Seq<char>)
    ensures
        ({
            let r1 = spec_intern(paths, p);
            let r2 = spec_intern(r1.0, p);
            &&& r2.1 == r1.1
            &&& r2.0 == r1.0
            &&& (p.len() == 0 ==> r1.1 == 0 && r1.0 == paths)
        }),
{
    if p.len() > 0 && !paths.contains(p) {
        let grown = paths.push(p);
        assert(grown.contains(p)) by {
            assert(grown[paths.len() as int] == p);
        }
        lemma_first_index_push(paths, p);
    }
}

proof fn lemma_first_index_push(paths: Seq<Seq<char>>, p: Seq<char>)
    requires
        !paths.contains(p),
    ensures
        first_index(paths.push(p), p) == paths.len(),
    decreases paths.len(),
{
    let grown = paths.push(p);
    if paths.len() == 0 {
        assert(grown[0] == p);
    } else {
        assert(paths[0] != p);
        assert(grown[0] == paths[0]);
        assert(!paths.drop_first().contains(p)) by {
            if paths.drop_first().contains(p) {
                let i = choose|i: int|
                    0 <= i < paths.drop_first().len() && paths.drop_first()[i] == p;
                assert(paths[i + 1] == p);
            }
        }
        lemma_first_index_push(paths.drop_first(), p);
        assert(grown.drop_first() =~= paths.drop_first().push(p));
    }
}

/// A non-empty path never interns to id 0.
pub proof fn lemma_intern_id_nonzero(paths: Seq<Seq<char>>, p: Seq<char>)
    requires
        p.len() > 0,
    ensures
        spec_intern(paths, p).1 >= 1,
{
    if paths.contains(p) {
        lemma_first_index(paths, p);
    }
}

/// The document-wide path catalog.
pub struct SharedStore {
    last_path_id: usize,
    path_defs: IndexMap<String, usize>,
}

impl SharedStore {
    /// The catalog entries: key text and id, in first-insertion order.
    pub closed spec fn entries(&self) -> Seq<(Seq<char>, usize)> {
        path_map_entries(self.path_defs)
    }

    /// The interned path-data strings, in first-insertion order.
    pub open spec fn paths(&self) -> Seq<Seq<char>> {
        self.entries().map_values(|e: (Seq<char>, usize)| e.0)
    }

    /// Well-formed: ids are the 1-based positions, keys are distinct and
    /// non-empty, and the id counter is the entry count.
    pub closed spec fn wf(&self) -> bool {
        &&& self.last_path_id == self.entries().len()
        &&& forall|i: int|
            0 <= i < self.entries().len() ==> (#[trigger] self.entries()[i]).1 == i + 1
        &&& forall|i: int, j: int|
            0 <= i < j < self.entries().len() ==> self.entries()[i].0 != self.entries()[j].0
        &&& forall|i: int|
            0 <= i < self.entries().len() ==> (#[trigger] self.entries()[i]).0.len() > 0
    }

    /// An empty catalog.
    pub fn new() -> (s: SharedStore)
        ensures
            s.wf(),
            s.paths() == Seq::<Seq<char>>::empty(),
    {
        let s = SharedStore { last_path_id: 0, path_defs: im_new() };
        proof {
            assert(s.paths() =~= Seq::<Seq<char>>::empty());
        }
        s
    }

    /// Interns a path-data string, exactly as `spec_intern` describes:
    /// the returned id and the new catalog are `spec_intern` of the old
    /// catalog and the string.
    pub fn add_path_def(&mut self, path_data: String) -> (id: usize)
        requires
            old(self).wf(),
            old(self).paths().len() < usize::MAX,
        ensures
            final(self).wf(),
            (final(self).paths(), id as int) == spec_intern(old(self).paths(), path_data@),
            final(self).paths().len() <= old(self).paths().len() + 1,
    {
        let ghost paths0 = self.paths();
        if path_data.as_str().unicode_len() == 0 {
            proof {
                assert((self.paths(), 0int) == spec_intern(paths0, path_data@));
            }
            return 0;
        }
        proof {
            lemma_first_index(paths0, path_data@);
        }
        match im_get(&self.path_defs, &path_data) {
            Option::Some(v) => {
                proof {
                    let i = choose|i: int|
                        0 <= i < self.entries().len() && self.entries()[i] == (path_data@, v);
                    assert(self.paths()[i] == path_data@);
                    assert(paths0.contains(path_data@));
                    let f = first_index(paths0, path_data@);
                    assert(self.entries()[f].0 == path_data@);
                    assert(i == f);
                    assert(v == f + 1);
                }
                v
            },
            Option::None => {
                proof {
                    assert forall|i: int|
                        0 <= i < paths0.len() implies paths0[i] != path_data@ by {
                        assert(self.entries()[i].0 != path_data@);
                    }
                    assert(!paths0.contains(path_data@));
                }
                let id = self.last_path_id + 1;
                let ghost pre = self.entries();
                im_insert(&mut self.path_defs, path_data, id);
                self.last_path_id = id;
                proof {
                    assert(self.entries() == pre.push((path_data@, id)));
                    assert(self.paths() =~= paths0.push(path_data@));
                    assert forall|i: int, j: int|
                        0 <= i < j < self.entries().len() implies self.entries()[i].0
                        != self.entries()[j].0 by {
                        if j == self.entries().len() - 1 {
                            assert(paths0[i] != path_data@);
                        }
                    }
                }
                id
            },
        }
    }

    /// The catalog entries as a list of path-data string and id pairs, in
    /// first-insertion order.
    pub fn entries_vec(&self) -> (r: Vec<(String, usize)>)
        ensures
            r@.len() == self.entries().len(),
            forall|i: int|
                0 <= i < r@.len() ==> ((#[trigger] r@[i]).0@, r@[i].1) == self.entries()[i],
    {
        im_entries(&self.path_defs)
    }

    /// The catalog's ids are its 1-based positions.
    pub proof fn lemma_ids(&self)
        requires
            self.wf(),
        ensures
            forall|i: int|
                0 <= i < self.entries().len() ==> (#[trigger] self.entries()[i]).1 == i + 1,
    {
    }

    /// The number of interned paths.
    pub fn len(&self) -> (n: usize)
        requires
            self.wf(),
        ensures
            n == self.paths().len(),
    {
        self.last_path_id
    }
}

} // verus!
