//! The configuration of the server, and the map of marker types.
use vstd::prelude::*;
use std::collections::BTreeMap;
use crate::scrypt::InsignoScryptParams;
use crate::text::str_eq;

verus! {

broadcast use {vstd::std_specs::btree::group_btree_axioms, vstd::laws_cmp::group_laws_cmp};

/// The SMTP server and its credentials.
pub struct SmtpConfig {
    pub server: String,
    pub user: String,
    pub password: String,
}

/// The configuration read at start-up.
pub struct InsignoConfig {
    pub media_folder: String,
    pub template_folder: String,
    pub oldest_supported_version: String,
    pub smtp: SmtpConfig,
    pub scrypt: InsignoScryptParams,
    pub intro_images: Vec<String>,
}

/// The marker types, by id and by name.
pub struct TrashTypeMap {
    pub to_string: BTreeMap<i64, String>,
    pub to_i64: NameIds,
}

/// A map from names to ids, each name at most once.
pub struct NameIds {
    entries: Vec<(String, i64)>,
}

/// `k` is the largest id that `m` names `n`.
pub open spec fn largest_id_named(m: Map<i64, String>, n: Seq<char>, k: i64) -> bool {
    &&& m.contains_key(k)
    &&& m[k]@ == n
    &&& forall|k2: i64| #![trigger m.contains_key(k2)] m.contains_key(k2) && m[k2]@ == n ==> k2 <= k
}

/// No two ids of `m` have the same name.
pub open spec fn names_distinct(m: Map<i64, String>) -> bool {
    forall|k1: i64, k2: i64|
        #![trigger m.contains_key(k1), m.contains_key(k2)]
        m.contains_key(k1) && m.contains_key(k2) && m[k1]@ == m[k2]@ ==> k1 == k2
}

fn find_name(entries: &Vec<(String, i64)>, name: &str) -> (r: Option<usize>)
    ensures
        match r {
            Some(q) => q < entries@.len() && entries@[q as int].0@ == name@,
            None => forall|x: int| 0 <= x < entries@.len() ==> #[trigger] entries@[x].0@ != name@,
        },
{
    let mut q: usize = 0;
    while q < entries.len()
        invariant
            q <= entries@.len(),
            forall|x: int| 0 <= x < q ==> #[trigger] entries@[x].0@ != name@,
        decreases entries@.len() - q,
    {
        if str_eq(entries[q].0.as_str(), name) {
            return Some(q);
        }
        q = q + 1;
    }
    None
}

impl NameIds {
    /// The map gives `k` for the name `n`.
    pub closed spec fn maps(&self, n: Seq<char>, k: i64) -> bool {
        exists|q: int|
            0 <= q < self.entries@.len() && #[trigger] self.entries@[q].0@ == n && self.entries@[q].1
                == k
    }

    /// The id of a name, if it has one.
    pub fn get(&self, name: &str) -> (r: Option<i64>)
        ensures
            match r {
                Some(k) => self.maps(name@, k),
                None => forall|k: i64| !self.maps(name@, k),
            },
    {
        match find_name(&self.entries, name) {
            Some(q) => Some(self.entries[q].1),
            None => None,
        }
    }
}

/// The map from id to name that a list of rows gives, a later row winning
/// over an earlier one with the same id.
pub open spec fn rows_to_map(rows: Seq<(i64, String)>) -> Map<i64, String>
    decreases rows.len(),
{
    if rows.len() == 0 {
        Map::empty()
    } else {
        rows_to_map(rows.drop_last()).insert(rows.last().0, rows.last().1)
    }
}

impl TrashTypeMap {
    /// The maps of the rows (id, name) of the marker types table: by id
    /// (a later row winning over an earlier one with the same id), and back
    /// from each name to the largest id that has it.
    pub fn from_rows(rows: &Vec<(i64, String)>) -> (m: TrashTypeMap)
        ensures
            m.to_string@ == rows_to_map(rows@),
            forall|n: Seq<char>, k: i64|
                #[trigger] m.to_i64.maps(n, k) <==> largest_id_named(m.to_string@, n, k),
            names_distinct(m.to_string@) ==> forall|n: Seq<char>, k: i64|
                #[trigger] m.to_i64.maps(n, k) <==> (m.to_string@.contains_key(k) && m.to_string@[k]@
                    == n),
    {
        let mut to_string: BTreeMap<i64, String> = BTreeMap::new();
        let mut ids: Vec<i64> = Vec::new();
        let mut names: Vec<String> = Vec::new();
        let mut i: usize = 0;
        while i < rows.len()
            invariant
                i <= rows@.len(),
                to_string@ == rows_to_map(rows@.take(i as int)),
                ids@.len() == names@.len(),
                forall|a: int|
                    0 <= a < ids@.len() ==> to_string@.contains_key(#[trigger] ids@[a])
                        && to_string@[ids@[a]] == names@[a],
                forall|k: i64|
                    to_string@.contains_key(k) ==> exists|a: int| 0 <= a < ids@.len() && #[trigger] ids@[a] == k,
                forall|a: int, b: int| 0 <= a < b < ids@.len() ==> ids@[a] != ids@[b],
            decreases rows@.len() - i,
        {
            let id = rows[i].0;
            let name = rows[i].1.clone();
            assert(rows@.take(i + 1).drop_last() =~= rows@.take(i as int));
            let mut p: usize = 0;
            while p < ids.len()
                invariant
                    p <= ids@.len(),
                    forall|a: int| 0 <= a < p ==> ids@[a] != id,
                ensures
                    p <= ids@.len(),
                    forall|a: int| 0 <= a < p ==> ids@[a] != id,
                    p < ids@.len() ==> ids@[p as int] == id,
                decreases ids@.len() - p,
            {
                if ids[p] == id {
                    break;
                }
                p = p + 1;
            }
            let ghost old_map = to_string@;
            let ghost old_ids = ids@;
            if p < ids.len() {
                names.set(p, name.clone());
            } else {
                ids.push(id);
                names.push(name.clone());
            }
            to_string.insert(id, name);
            proof {
                assert forall|k: i64| to_string@.contains_key(k) implies exists|a: int|
                    0 <= a < ids@.len() && #[trigger] ids@[a] == k by {
                    if k == id {
                        if p < old_ids.len() {
                            assert(ids@[p as int] == k);
                        } else {
                            assert(ids@[old_ids.len() as int] == k);
                        }
                    } else {
                        assert(old_map.contains_key(k));
                        let a = choose|a: int| 0 <= a < old_ids.len() && #[trigger] old_ids[a] == k;
                        assert(ids@[a] == k);
                    }
                }
            }
            i = i + 1;
        }
        assert(rows@.take(rows@.len() as int) =~= rows@);

        let mut entries: Vec<(String, i64)> = Vec::new();
        let ghost mut src: Seq<int> = Seq::empty();
        let ghost mut pos: Seq<int> = Seq::empty();
        let mut a: usize = 0;
        while a < ids.len()
            invariant
                ids@.len() == names@.len(),
                forall|b: int|
                    0 <= b < ids@.len() ==> to_string@.contains_key(#[trigger] ids@[b])
                        && to_string@[ids@[b]] == names@[b],
                a <= ids@.len(),
                entries@.len() == src.len(),
                forall|q: int|
                    0 <= q < entries@.len() ==> 0 <= #[trigger] src[q] < a && entries@[q].0
                        == names@[src[q]] && entries@[q].1 == ids@[src[q]],
                forall|q: int, b: int|
                    0 <= q < entries@.len() && 0 <= b < a && #[trigger] names@[b]@
                        == #[trigger] entries@[q].0@ ==> ids@[b] <= entries@[q].1,
                pos.len() == a,
                forall|b: int|
                    0 <= b < a ==> 0 <= #[trigger] pos[b] < entries@.len() && entries@[pos[b]].0@
                        == names@[b]@,
                forall|q1: int, q2: int|
                    0 <= q1 < q2 < entries@.len() ==> entries@[q1].0@ != entries@[q2].0@,
            decreases ids@.len() - a,
        {
            let ghost old_entries = entries@;
            let ghost old_pos = pos;
            match find_name(&entries, names[a].as_str()) {
                Some(q) => {
                    if ids[a] > entries[q].1 {
                        entries.set(q, (names[a].clone(), ids[a]));
                        proof {
                            src = src.update(q as int, a as int);
                        }
                    }
                    proof {
                        pos = pos.push(q as int);
                        assert forall|q2: int, b: int|
                            0 <= q2 < entries@.len() && 0 <= b < a + 1 && #[trigger] names@[b]@
                                == #[trigger] entries@[q2].0@ implies ids@[b] <= entries@[q2].1 by {
                            if q2 != q {
                                assert(entries@[q2] == old_entries[q2]);
                                if b == a {
                                    assert(old_entries[q as int].0@ == names@[a as int]@);
                                    assert(false);
                                }
                            } else {
                                if b < a {
                                    assert(old_entries[q2].0@ == entries@[q2].0@);
                                }
                            }
                        }
                    }
                },
                None => {
                    entries.push((names[a].clone(), ids[a]));
                    proof {
                        src = src.push(a as int);
                        pos = pos.push(old_entries.len() as int);
                        assert forall|q2: int, b: int|
                            0 <= q2 < entries@.len() && 0 <= b < a + 1 && #[trigger] names@[b]@
                                == #[trigger] entries@[q2].0@ implies ids@[b] <= entries@[q2].1 by {
                            if q2 < old_entries.len() {
                                assert(entries@[q2] == old_entries[q2]);
                                if b == a {
                                    assert(old_entries[q2].0@ != names@[a as int]@);
                                }
                            } else {
                                if b < a {
                                    let qb = old_pos[b];
                                    assert(old_entries[qb].0@ == names@[b]@);
                                    assert(old_entries[qb].0@ != names@[a as int]@);
                                }
                            }
                        }
                    }
                },
            }
            a = a + 1;
        }
        let to_i64 = NameIds { entries };
        proof {
            let m = to_string@;
            assert forall|n: Seq<char>, k: i64| #[trigger]
                to_i64.maps(n, k) <==> largest_id_named(m, n, k) by {
                if to_i64.maps(n, k) {
                    let q = choose|q: int|
                        0 <= q < to_i64.entries@.len() && #[trigger] to_i64.entries@[q].0@ == n
                            && to_i64.entries@[q].1 == k;
                    let b = src[q];
                    assert(names@[b]@ == n);
                    assert forall|k2: i64| #![trigger m.contains_key(k2)]
                        m.contains_key(k2) && m[k2]@ == n implies k2 <= k by {
                        let b2 = choose|b2: int| 0 <= b2 < ids@.len() && #[trigger] ids@[b2] == k2;
                        assert(names@[b2]@ == entries@[q].0@);
                    }
                }
                if largest_id_named(m, n, k) {
                    let b0 = choose|b0: int| 0 <= b0 < ids@.len() && #[trigger] ids@[b0] == k;
                    let q = pos[b0];
                    let b = src[q];
                    assert(names@[b0]@ == entries@[q].0@);
                    assert(m.contains_key(ids@[b]));
                    assert(ids@[b] <= k);
                    assert(to_i64.entries@[q].0@ == n && to_i64.entries@[q].1 == k);
                }
            }
        }
        proof {
            let m = to_string@;
            if names_distinct(m) {
                assert forall|n: Seq<char>, k: i64| #[trigger]
                    to_i64.maps(n, k) <==> (m.contains_key(k) && m[k]@ == n) by {
                    if m.contains_key(k) && m[k]@ == n {
                        assert forall|k2: i64| #![trigger m.contains_key(k2)]
                            m.contains_key(k2) && m[k2]@ == n implies k2 <= k by {
                            assert(m[k2]@ == m[k]@);
                        }
                        assert(largest_id_named(m, n, k));
                    }
                }
            }
        }
        TrashTypeMap { to_string, to_i64 }
    }

    /// The type of a new marker: the type asked for where it exists, else
    /// the type 1.
    pub fn type_or_default(&self, marker_types_id: i64) -> (t: i64)
        ensures
            t == (if self.to_string@.contains_key(marker_types_id) {
                marker_types_id
            } else {
                1
            }),
    {
        if self.to_string.contains_key(&marker_types_id) {
            marker_types_id
        } else {
            1
        }
    }
}

} // verus!
