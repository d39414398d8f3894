//! Mesh analysis for the repair report: triangle count, degenerate facets
//! and open edges. Open edges are counted on the welded vertex ids of the
//! triangle corners (vertices welded by quantized position, so that a
//! triangle soup shares its edges): an edge used by exactly one triangle is
//! a border edge, and a mesh without any is watertight.

use std::collections::HashMap;
use vstd::prelude::*;

verus! {

broadcast use vstd::std_specs::hash::group_hash_axioms, vstd::seq_lib::to_multiset_build,
    vstd::seq_lib::seq_to_set_is_finite;

/// Analysis report of a mesh.
#[derive(Debug, Clone, PartialEq, Eq)]
pub struct MeshReport {
    /// Number of triangles.
    pub triangles: usize,
    /// Triangles of near-zero area.
    pub degenerate: usize,
    /// Border edges (used by a single triangle: hole or open mesh).
    pub open_edges: usize,
}

impl MeshReport {
    /// A mesh is watertight when it has no border edge.
    pub fn watertight(&self) -> (r: bool)
        ensures
            r == (self.open_edges == 0),
    {
        self.open_edges == 0
    }
}

/// Key of the undirected edge between welded vertices `u` and `v`: the
/// smaller id in the high 64 bits, the larger in the low ones.
pub open spec fn edge_key(u: u64, v: u64) -> u128 {
    if u <= v {
        (u as int * 0x1_0000_0000_0000_0000 + v as int) as u128
    } else {
        (v as int * 0x1_0000_0000_0000_0000 + u as int) as u128
    }
}

/// Keys of the three edges of triangle `t` (corners `3t`, `3t+1`, `3t+2`).
pub open spec fn triangle_edge_keys(corners: Seq<u64>, t: int) -> Seq<u128> {
    let a = corners[3 * t];
    let b = corners[3 * t + 1];
    let c = corners[3 * t + 2];
    seq![edge_key(a, b), edge_key(b, c), edge_key(c, a)]
}

/// Keys of the edges of the first `n` triangles, triangle after triangle.
pub open spec fn edge_keys(corners: Seq<u64>, n: int) -> Seq<u128>
    decreases n,
{
    if n <= 0 {
        Seq::empty()
    } else {
        edge_keys(corners, n - 1) + triangle_edge_keys(corners, n - 1)
    }
}

/// The edges that occur exactly once among `keys`.
pub open spec fn single_edges(keys: Seq<u128>) -> Set<u128> {
    keys.to_set().filter(|k: u128| keys.to_multiset().count(k) == 1)
}

/// Report of a mesh whose triangle corners carry the welded vertex ids
/// `corners` (three per triangle; an incomplete last triangle is ignored)
/// and of which `degenerate` facets have near-zero area.
pub open spec fn spec_edge_report(corners: Seq<u64>, degenerate: usize) -> MeshReport {
    MeshReport {
        triangles: (corners.len() / 3) as usize,
        degenerate,
        open_edges: single_edges(edge_keys(corners, (corners.len() / 3) as int)).len() as usize,
    }
}

fn edge_key_of(u: u64, v: u64) -> (r: u128)
    ensures
        r == edge_key(u, v),
{
    if u <= v {
        (u as u128) * 0x1_0000_0000_0000_0000u128 + (v as u128)
    } else {
        (v as u128) * 0x1_0000_0000_0000_0000u128 + (u as u128)
    }
}

proof fn lemma_single_edges_push(keys: Seq<u128>, k: u128)
    ensures
        keys.to_multiset().count(k) == 0 ==> single_edges(keys.push(k)) == single_edges(
            keys,
        ).insert(k),
        keys.to_multiset().count(k) == 1 ==> single_edges(keys.push(k)) == single_edges(
            keys,
        ).remove(k),
        keys.to_multiset().count(k) >= 2 ==> single_edges(keys.push(k)) == single_edges(keys),
        single_edges(keys).finite(),
        keys.to_multiset().count(k) == 0 ==> !single_edges(keys).contains(k),
        keys.to_multiset().count(k) == 1 ==> single_edges(keys).contains(k),
{
    let s2 = keys.push(k);
    assert(s2.to_multiset() =~= keys.to_multiset().insert(k));
    keys.lemma_push_to_set_commute(k);
    assert forall|x: u128| keys.to_set().contains(x) <==> keys.to_multiset().count(x) > 0 by {
        keys.to_multiset_ensures();
    }
    assert forall|x: u128| s2.to_set().contains(x) <==> s2.to_multiset().count(x) > 0 by {
        s2.to_multiset_ensures();
    }
    if keys.to_multiset().count(k) == 0 {
        assert(single_edges(s2) =~= single_edges(keys).insert(k));
    } else if keys.to_multiset().count(k) == 1 {
        assert(single_edges(s2) =~= single_edges(keys).remove(k));
    } else {
        assert(single_edges(s2) =~= single_edges(keys));
    }
}

/// Counts the open edges of a mesh from the welded ids of its triangle
/// corners; `degenerate` is carried into the report.
pub fn edge_report(corners: &Vec<u64>, degenerate: usize) -> (r: MeshReport)
    ensures
        r == spec_edge_report(corners@, degenerate),
{
    let triangles = corners.len() / 3;
    // Occurrences of each edge key, saturated at 2.
    let mut seen: HashMap<u128, u8> = HashMap::new();
    let mut open: usize = 0;
    let ghost mut keys: Seq<u128> = Seq::empty();
    let mut t: usize = 0;
    proof {
        keys.to_multiset_ensures();
        assert(keys.to_set() =~= Set::<u128>::empty());
        assert(single_edges(keys) =~= Set::<u128>::empty());
    }
    while t < triangles
        invariant
            triangles == corners.len() / 3,
            t <= triangles,
            keys == edge_keys(corners@, t as int),
            keys.len() == 3 * t,
            open == single_edges(keys).len(),
            open <= keys.len(),
            forall|k: u128| #[trigger]
                seen@.contains_key(k) <==> keys.to_multiset().count(k) > 0,
            forall|k: u128| #[trigger]
                seen@.contains_key(k) ==> seen@[k] == (if keys.to_multiset().count(k) >= 2 {
                    2
                } else {
                    keys.to_multiset().count(k)
                }),
        decreases triangles - t,
    {
        let a = corners[3 * t];
        let b = corners[3 * t + 1];
        let c = corners[3 * t + 2];
        let tk: [u128; 3] = [edge_key_of(a, b), edge_key_of(b, c), edge_key_of(c, a)];
        let ghost start = keys;
        let mut j: usize = 0;
        while j < 3
            invariant
                j <= 3,
                3 * t + 3 <= corners.len(),
                tk@ == triangle_edge_keys(corners@, t as int),
                keys == start + tk@.take(j as int),
                start.len() == 3 * t,
                open == single_edges(keys).len(),
                open <= keys.len(),
                forall|k: u128| #[trigger]
                    seen@.contains_key(k) <==> keys.to_multiset().count(k) > 0,
                forall|k: u128| #[trigger]
                    seen@.contains_key(k) ==> seen@[k] == (if keys.to_multiset().count(k) >= 2 {
                        2
                    } else {
                        keys.to_multiset().count(k)
                    }),
            decreases 3 - j,
        {
            let k = tk[j];
            proof {
                lemma_single_edges_push(keys, k);
                assert(keys.push(k).to_multiset() =~= keys.to_multiset().insert(k));
            }
            let before = match seen.get(&k) {
                Some(n) => *n,
                None => 0u8,
            };
            if before == 0 {
                seen.insert(k, 1u8);
                open = open + 1;
            } else if before == 1 {
                seen.insert(k, 2u8);
                open = open - 1;
            }
            proof {
                keys = keys.push(k);
            }
            j = j + 1;
            assert(keys =~= start + tk@.take(j as int));
        }
        assert(tk@.take(3) =~= tk@);
        t = t + 1;
        assert(edge_keys(corners@, t as int) == edge_keys(corners@, t - 1) + triangle_edge_keys(
            corners@,
            t - 1,
        ));
    }
    MeshReport { triangles, degenerate, open_edges: open }
}

} // verus!
