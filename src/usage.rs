//! Correlation of declared dependencies with the libraries that units reference.
use vstd::prelude::*;
use crate::invocation::CmdInfo;
use crate::names::{lemma_rel_of_index, lemma_rel_of_member, rel_of, DependencyNames, NameMaps};
use crate::text::str_eq;

verus! {

/// A compiled workspace unit with the external library names that its usage
/// analysis lists.
pub struct UnitUsage {
    pub info: CmdInfo,
    pub external_crates: Vec<String>,
}

/// The `(package, manifest name)` pairs that a list holds, as views.
pub open spec fn dep_set(v: Seq<(usize, String)>) -> Set<(int, Seq<char>)> {
    Set::new(|p: (int, Seq<char>)| exists|i: int| 0 <= i < v.len() && p == (v[i].0 as int, v[i].1@))
}

/// The lookups of one category of a package's index.
pub open spec fn maps_for(d: DependencyNames, build: bool) -> NameMaps {
    if build { d.build } else { d.normal_dev }
}

/// Whether no two entries of an index are for the same package.
pub open spec fn keys_unique(index: Seq<(usize, DependencyNames)>) -> bool {
    forall|i: int, j: int| 0 <= i < j < index.len() ==> index[i].0 != index[j].0
}

/// The pairs of a category that one unit references through its usage analysis.
pub open spec fn unit_used(index: Seq<(usize, DependencyNames)>, u: UnitUsage, build: bool) -> Set<(int, Seq<char>)> {
    Set::new(|p: (int, Seq<char>)| u.info.custom_build == build && p.0 == u.info.pkg as int
        && exists|k: int, j: int| 0 <= k < index.len() && index[k].0 == u.info.pkg
            && 0 <= j < u.external_crates@.len()
            && maps_for(index[k].1, build).libs().contains((u.external_crates@[j]@, p.1)))
}

/// The pairs of a category that one unit is handed by its invocation.
pub open spec fn unit_declared(index: Seq<(usize, DependencyNames)>, u: UnitUsage, build: bool) -> Set<(int, Seq<char>)> {
    Set::new(|p: (int, Seq<char>)| u.info.custom_build == build && p.0 == u.info.pkg as int
        && exists|k: int, j: int| 0 <= k < index.len() && index[k].0 == u.info.pkg
            && 0 <= j < u.info.externs@.len()
            && maps_for(index[k].1, build).links().contains((u.info.externs@[j].0@, p.1)))
}

/// Whether some manifest name is mapped from key `l`.
pub open spec fn has_key(rel: Set<(Seq<char>, Seq<char>)>, l: Seq<char>) -> bool {
    exists|d: Seq<char>| rel.contains((l, d))
}

/// Whether `l` is the link name of the package's own library.
pub open spec fn is_own_link(d: DependencyNames, l: Seq<char>) -> bool {
    match d.own_lib {
        Some(own) => own.0@ == l,
        None => false,
    }
}

/// The `(package, link name)` pairs of one unit whose link name is neither a
/// dependency of the unit's category nor the package's own library.
pub open spec fn unit_unresolved(index: Seq<(usize, DependencyNames)>, u: UnitUsage) -> Set<(int, Seq<char>)> {
    Set::new(|p: (int, Seq<char>)| p.0 == u.info.pkg as int
        && exists|k: int, j: int| 0 <= k < index.len() && index[k].0 == u.info.pkg
            && 0 <= j < u.info.externs@.len() && p.1 == u.info.externs@[j].0@
            && !has_key(maps_for(index[k].1, u.info.custom_build).links(), p.1)
            && !is_own_link(index[k].1, p.1))
}

/// The unresolved pairs over the first `n` units.
pub open spec fn unresolved_upto(index: Seq<(usize, DependencyNames)>, units: Seq<UnitUsage>, n: int) -> Set<(int, Seq<char>)>
    decreases n,
{
    if n <= 0 {
        Set::empty()
    } else {
        unresolved_upto(index, units, n - 1).union(unit_unresolved(index, units[n - 1]))
    }
}

/// The used pairs of a category over the first `n` units.
pub open spec fn used_upto(index: Seq<(usize, DependencyNames)>, units: Seq<UnitUsage>, n: int, build: bool) -> Set<(int, Seq<char>)>
    decreases n,
{
    if n <= 0 {
        Set::empty()
    } else {
        used_upto(index, units, n - 1, build).union(unit_used(index, units[n - 1], build))
    }
}

/// The declared pairs of a category over the first `n` units.
pub open spec fn declared_upto(index: Seq<(usize, DependencyNames)>, units: Seq<UnitUsage>, n: int, build: bool) -> Set<(int, Seq<char>)>
    decreases n,
{
    if n <= 0 {
        Set::empty()
    } else {
        declared_upto(index, units, n - 1, build).union(unit_declared(index, units[n - 1], build))
    }
}

/// The pairs of a category that some unit's source references.
pub open spec fn used_deps(index: Seq<(usize, DependencyNames)>, units: Seq<UnitUsage>, build: bool) -> Set<(int, Seq<char>)> {
    used_upto(index, units, units.len() as int, build)
}

/// The pairs of a category that some unit is compiled against.
pub open spec fn declared_deps(index: Seq<(usize, DependencyNames)>, units: Seq<UnitUsage>, build: bool) -> Set<(int, Seq<char>)> {
    declared_upto(index, units, units.len() as int, build)
}

/// The used and declared pairs of both categories.
pub struct Usage {
    pub used_normal_dev: Vec<(usize, String)>,
    pub used_build: Vec<(usize, String)>,
    pub normal_dev: Vec<(usize, String)>,
    pub build: Vec<(usize, String)>,
    /// `(package, link name)` pairs that a workspace unit was handed and that
    /// its package's index does not know: they are left out of the judgement.
    pub unresolved: Vec<(usize, String)>,
}

/// The position of a package in the index.
fn find_pkg(index: &Vec<(usize, DependencyNames)>, pkg: usize) -> (r: Option<usize>)
    ensures
        match r {
            Some(k) => k < index@.len() && index@[k as int].0 == pkg,
            None => forall|k: int| 0 <= k < index@.len() ==> index@[k].0 != pkg,
        },
{
    let mut k: usize = 0;
    while k < index.len()
        invariant
            k <= index@.len(),
            forall|j: int| 0 <= j < k ==> index@[j].0 != pkg,
        decreases index.len() - k,
    {
        if index[k].0 == pkg {
            return Some(k);
        }
        k = k + 1;
    }
    None
}

/// Adds `(pkg, d)` for each `(key, d)` of `rel`.
fn add_matches(out: &mut Vec<(usize, String)>, pkg: usize, key: &str, rel: &Vec<(String, String)>)
    ensures
        dep_set(final(out)@) == dep_set(old(out)@).union(
            Set::new(|p: (int, Seq<char>)| p.0 == pkg as int && rel_of(rel@).contains((key@, p.1)))),
{
    let ghost added = Set::new(|p: (int, Seq<char>)| p.0 == pkg as int && rel_of(rel@).contains((key@, p.1)));
    let ghost o = old(out)@;
    let mut i: usize = 0;
    while i < rel.len()
        invariant
            i <= rel@.len(),
            added == Set::new(|p: (int, Seq<char>)| p.0 == pkg as int && rel_of(rel@).contains((key@, p.1))),
            dep_set(out@) == dep_set(o).union(added.filter(|p: (int, Seq<char>)|
                exists|j: int| 0 <= j < i && rel@[j].0@ == key@ && rel@[j].1@ == p.1)),
        decreases rel.len() - i,
    {
        let ghost before = out@;
        let hit = str_eq(rel[i].0.as_str(), key);
        if hit {
            out.push((pkg, rel[i].1.clone()));
        }
        proof {
            let f = |p: (int, Seq<char>)| exists|j: int| 0 <= j < i && rel@[j].0@ == key@ && rel@[j].1@ == p.1;
            let g = |p: (int, Seq<char>)| exists|j: int| 0 <= j < i + 1 && rel@[j].0@ == key@ && rel@[j].1@ == p.1;
            assert forall|q: (int, Seq<char>)| dep_set(out@).contains(q)
                == dep_set(o).union(added.filter(g)).contains(q) by {
                if dep_set(before).contains(q) {
                    let k = choose|k: int| 0 <= k < before.len() && q == (before[k].0 as int, before[k].1@);
                    assert(out@[k] == before[k]);
                }
                if dep_set(out@).contains(q) {
                    let k = choose|k: int| 0 <= k < out@.len() && q == (out@[k].0 as int, out@[k].1@);
                    if k < before.len() {
                        assert(out@[k] == before[k]);
                        assert(dep_set(before).contains(q));
                    } else {
                        lemma_rel_of_index(rel@, i as int);
                        assert(g(q));
                    }
                }
                if f(q) {
                    let k = choose|k: int| 0 <= k < i && rel@[k].0@ == key@ && rel@[k].1@ == q.1;
                    assert(g(q));
                }
                if added.filter(g).contains(q) && !f(q) {
                    assert(rel@[i as int].0@ == key@ && rel@[i as int].1@ == q.1);
                    assert(hit);
                    assert(out@[before.len() as int] == (pkg, rel@[i as int].1));
                    assert(dep_set(out@).contains(q));
                }
            }
            assert(dep_set(out@) =~= dep_set(o).union(added.filter(g)));
        }
        i = i + 1;
    }
    proof {
        let g = |p: (int, Seq<char>)| exists|j: int| 0 <= j < i && rel@[j].0@ == key@ && rel@[j].1@ == p.1;
        assert forall|q: (int, Seq<char>)| added.contains(q) implies g(q) by {
            lemma_rel_of_member(rel@, (key@, q.1));
        }
        assert(added.filter(g) =~= added);
    }
}

/// The pairs of `rel` whose key is one of `keys`, under package `pkg`.
pub open spec fn matches_any(pkg: int, keys: Seq<Seq<char>>, rel: Set<(Seq<char>, Seq<char>)>) -> Set<(int, Seq<char>)> {
    Set::new(|p: (int, Seq<char>)| p.0 == pkg
        && exists|j: int| 0 <= j < keys.len() && rel.contains((keys[j], p.1)))
}

/// Adds `(pkg, d)` for each `(k, d)` of `rel` whose `k` is one of `keys`.
fn add_all(out: &mut Vec<(usize, String)>, pkg: usize, keys: &Vec<String>, rel: &Vec<(String, String)>)
    ensures
        dep_set(final(out)@) == dep_set(old(out)@).union(
            matches_any(pkg as int, keys@.map_values(|s: String| s@), rel_of(rel@))),
{
    let ghost ks = keys@.map_values(|s: String| s@);
    let ghost o = old(out)@;
    let mut i: usize = 0;
    assert(matches_any(pkg as int, ks.take(0), rel_of(rel@)) =~= Set::empty());
    assert(dep_set(out@).union(Set::empty()) =~= dep_set(out@));
    while i < keys.len()
        invariant
            i <= keys@.len(),
            ks == keys@.map_values(|s: String| s@),
            dep_set(out@) == dep_set(o).union(matches_any(pkg as int, ks.take(i as int), rel_of(rel@))),
        decreases keys.len() - i,
    {
        add_matches(out, pkg, keys[i].as_str(), rel);
        proof {
            let a = matches_any(pkg as int, ks.take(i as int), rel_of(rel@));
            let b = matches_any(pkg as int, ks.take(i + 1), rel_of(rel@));
            let c = Set::new(|p: (int, Seq<char>)| p.0 == pkg as int && rel_of(rel@).contains((keys@[i as int]@, p.1)));
            let t0 = ks.take(i as int);
            let t1 = ks.take(i + 1);
            assert forall|q: (int, Seq<char>)| b.contains(q) == a.union(c).contains(q) by {
                if b.contains(q) {
                    let j = choose|j: int| 0 <= j < t1.len() && rel_of(rel@).contains((#[trigger] t1[j], q.1));
                    if j < i {
                        assert(t0[j] == t1[j]);
                    }
                }
                if a.contains(q) {
                    let j = choose|j: int| 0 <= j < t0.len() && rel_of(rel@).contains((#[trigger] t0[j], q.1));
                    assert(t0[j] == t1[j]);
                }
                if c.contains(q) {
                    assert(t1[i as int] == keys@[i as int]@);
                }
            }
            assert(b =~= a.union(c));
            assert(dep_set(o).union(a).union(c) =~= dep_set(o).union(b));
        }
        i = i + 1;
    }
    assert(ks.take(i as int) == ks);
}

/// The link names of an invocation's `--extern` pairs.
fn link_names(externs: &Vec<(String, String)>) -> (r: Vec<String>)
    ensures
        r@.map_values(|s: String| s@) == externs@.map_values(|p: (String, String)| p.0@),
        r@.len() == externs@.len(),
        forall|j: int| 0 <= j < r@.len() ==> #[trigger] r@[j]@ == externs@[j].0@,
{
    let mut r: Vec<String> = Vec::new();
    let mut i: usize = 0;
    while i < externs.len()
        invariant
            i <= externs@.len(),
            r@.len() == i,
            forall|j: int| 0 <= j < i ==> #[trigger] r@[j]@ == externs@[j].0@,
            r@.map_values(|s: String| s@) == externs@.take(i as int).map_values(|p: (String, String)| p.0@),
        decreases externs.len() - i,
    {
        let ghost before = r@;
        let name = externs[i].0.clone();
        assert(name@ == externs@[i as int].0@);
        r.push(name);
        assert(externs@.take(i + 1) == externs@.take(i as int).push(externs@[i as int]));
        assert forall|j: int| 0 <= j < i implies #[trigger] r@[j]@ == externs@[j].0@ by {
            assert(r@[j] == before[j]);
            assert(before.map_values(|s: String| s@)[j] == externs@.take(i as int).map_values(|p: (String, String)| p.0@)[j]);
        }
        assert(r@.map_values(|s: String| s@) =~= externs@.take(i + 1).map_values(|p: (String, String)| p.0@));
        i = i + 1;
    }
    assert(externs@.take(i as int) == externs@);
    r
}

/// Whether some pair of `rel` has the key `key`.
fn has_key_exec(rel: &Vec<(String, String)>, key: &str) -> (r: bool)
    ensures
        r == has_key(rel_of(rel@), key@),
{
    let mut i: usize = 0;
    while i < rel.len()
        invariant
            i <= rel@.len(),
            forall|j: int| 0 <= j < i ==> rel@[j].0@ != key@,
        decreases rel.len() - i,
    {
        if str_eq(rel[i].0.as_str(), key) {
            proof {
                lemma_rel_of_index(rel@, i as int);
            }
            return true;
        }
        i = i + 1;
    }
    proof {
        assert forall|d: Seq<char>| !rel_of(rel@).contains((key@, d)) by {
            if rel_of(rel@).contains((key@, d)) {
                lemma_rel_of_member(rel@, (key@, d));
            }
        }
    }
    false
}

/// Adds `(pkg, l)` for each link name `l` of `links` that is neither a key of
/// `rel` nor the own link name.
fn add_unresolved(out: &mut Vec<(usize, String)>, pkg: usize, links: &Vec<String>, rel: &Vec<(String, String)>, names: &DependencyNames)
    ensures
        dep_set(final(out)@) == dep_set(old(out)@).union(Set::new(|p: (int, Seq<char>)| p.0 == pkg as int
            && exists|j: int| 0 <= j < links@.len() && p.1 == links@[j]@
                && !has_key(rel_of(rel@), p.1) && !is_own_link(*names, p.1))),
{
    let ghost o = old(out)@;
    let ghost want = |p: (int, Seq<char>), n: int| p.0 == pkg as int
        && exists|j: int| 0 <= j < n && p.1 == links@[j]@
            && !has_key(rel_of(rel@), p.1) && !is_own_link(*names, p.1);
    let mut i: usize = 0;
    assert(dep_set(out@) =~= dep_set(o).union(Set::new(|p: (int, Seq<char>)| want(p, 0))));
    while i < links.len()
        invariant
            i <= links@.len(),
            want == (|p: (int, Seq<char>), n: int| p.0 == pkg as int
                && exists|j: int| 0 <= j < n && p.1 == links@[j]@
                    && !has_key(rel_of(rel@), p.1) && !is_own_link(*names, p.1)),
            dep_set(out@) == dep_set(o).union(Set::new(|p: (int, Seq<char>)| want(p, i as int))),
        decreases links.len() - i,
    {
        let l = links[i].as_str();
        let own = match &names.own_lib {
            Some(x) => str_eq(x.0.as_str(), l),
            None => false,
        };
        let ghost before = out@;
        let keep = !own && !has_key_exec(rel, l);
        if keep {
            out.push((pkg, links[i].clone()));
        }
        proof {
            assert forall|q: (int, Seq<char>)| dep_set(out@).contains(q)
                == dep_set(o).union(Set::new(|p: (int, Seq<char>)| want(p, i + 1))).contains(q) by {
                if dep_set(before).contains(q) {
                    let k = choose|k: int| 0 <= k < before.len() && q == (before[k].0 as int, before[k].1@);
                    assert(out@[k] == before[k]);
                }
                if dep_set(out@).contains(q) {
                    let k = choose|k: int| 0 <= k < out@.len() && q == (out@[k].0 as int, out@[k].1@);
                    if k < before.len() {
                        assert(out@[k] == before[k]);
                        assert(dep_set(before).contains(q));
                    } else {
                        assert(want(q, i + 1));
                    }
                }
                if want(q, i as int) {
                    let j = choose|j: int| 0 <= j < i && q.1 == links@[j]@
                        && !has_key(rel_of(rel@), q.1) && !is_own_link(*names, q.1);
                    assert(want(q, i + 1));
                }
                if want(q, i + 1) && !want(q, i as int) {
                    assert(q.1 == links@[i as int]@);
                    assert(keep);
                    assert(out@[before.len() as int].1@ == q.1);
                    assert(dep_set(out@).contains(q));
                }
            }
            assert(dep_set(out@) =~= dep_set(o).union(Set::new(|p: (int, Seq<char>)| want(p, i + 1))));
        }
        i = i + 1;
    }
    assert(Set::new(|p: (int, Seq<char>)| want(p, i as int)) =~= Set::new(|p: (int, Seq<char>)| p.0 == pkg as int
        && exists|j: int| 0 <= j < links@.len() && p.1 == links@[j]@
            && !has_key(rel_of(rel@), p.1) && !is_own_link(*names, p.1)));
}

/// What one unit adds, given where its package stands in the index.
proof fn lemma_unit_sets(index: Seq<(usize, DependencyNames)>, u: UnitUsage, build: bool, found: Option<usize>)
    requires
        keys_unique(index),
        match found {
            Some(k) => k < index.len() && index[k as int].0 == u.info.pkg,
            None => forall|k: int| 0 <= k < index.len() ==> index[k].0 != u.info.pkg,
        },
    ensures
        (found is None || u.info.custom_build != build) ==> unit_used(index, u, build) == Set::<(int, Seq<char>)>::empty()
            && unit_declared(index, u, build) == Set::<(int, Seq<char>)>::empty(),
        (found is Some && u.info.custom_build == build) ==> {
            let m = maps_for(index[found->0 as int].1, build);
            &&& unit_used(index, u, build) == matches_any(u.info.pkg as int,
                u.external_crates@.map_values(|s: String| s@), m.libs())
            &&& unit_declared(index, u, build) == matches_any(u.info.pkg as int,
                u.info.externs@.map_values(|p: (String, String)| p.0@), m.links())
        },
{
    if found is None || u.info.custom_build != build {
        assert(unit_used(index, u, build) =~= Set::empty());
        assert(unit_declared(index, u, build) =~= Set::empty());
    } else {
        let k0 = found->0 as int;
        let m = maps_for(index[k0].1, build);
        let es = u.external_crates@.map_values(|s: String| s@);
        let ls = u.info.externs@.map_values(|p: (String, String)| p.0@);
        assert forall|q: (int, Seq<char>)| unit_used(index, u, build).contains(q)
            == matches_any(u.info.pkg as int, es, m.libs()).contains(q) by {
            if unit_used(index, u, build).contains(q) {
                let (k, j) = choose|k: int, j: int| 0 <= k < index.len() && index[k].0 == u.info.pkg
                    && 0 <= j < u.external_crates@.len()
                    && maps_for(index[k].1, build).libs().contains((u.external_crates@[j]@, q.1));
                assert(k == k0);
                assert(es[j] == u.external_crates@[j]@);
            }
            if matches_any(u.info.pkg as int, es, m.libs()).contains(q) {
                let j = choose|j: int| 0 <= j < es.len() && m.libs().contains((es[j], q.1));
                assert(es[j] == u.external_crates@[j]@);
            }
        }
        assert forall|q: (int, Seq<char>)| unit_declared(index, u, build).contains(q)
            == matches_any(u.info.pkg as int, ls, m.links()).contains(q) by {
            if unit_declared(index, u, build).contains(q) {
                let (k, j) = choose|k: int, j: int| 0 <= k < index.len() && index[k].0 == u.info.pkg
                    && 0 <= j < u.info.externs@.len()
                    && maps_for(index[k].1, build).links().contains((u.info.externs@[j].0@, q.1));
                assert(k == k0);
                assert(ls[j] == u.info.externs@[j].0@);
            }
            if matches_any(u.info.pkg as int, ls, m.links()).contains(q) {
                let j = choose|j: int| 0 <= j < ls.len() && m.links().contains((ls[j], q.1));
                assert(ls[j] == u.info.externs@[j].0@);
            }
        }
        assert(unit_used(index, u, build) =~= matches_any(u.info.pkg as int, es, m.libs()));
        assert(unit_declared(index, u, build) =~= matches_any(u.info.pkg as int, ls, m.links()));
    }
}

/// The link names that one unit leaves unresolved, given where its package
/// stands in the index.
proof fn lemma_unit_unresolved(index: Seq<(usize, DependencyNames)>, u: UnitUsage, found: Option<usize>, links: Seq<String>)
    requires
        keys_unique(index),
        links.len() == u.info.externs@.len(),
        forall|j: int| 0 <= j < links.len() ==> #[trigger] links[j]@ == u.info.externs@[j].0@,
        match found {
            Some(k) => k < index.len() && index[k as int].0 == u.info.pkg,
            None => forall|k: int| 0 <= k < index.len() ==> index[k].0 != u.info.pkg,
        },
    ensures
        found is None ==> unit_unresolved(index, u) == Set::<(int, Seq<char>)>::empty(),
        found is Some ==> unit_unresolved(index, u) == Set::new(|p: (int, Seq<char>)| p.0 == u.info.pkg as int
            && exists|j: int| 0 <= j < links.len() && p.1 == links[j]@
                && !has_key(maps_for(index[found->0 as int].1, u.info.custom_build).links(), p.1)
                && !is_own_link(index[found->0 as int].1, p.1)),
{
    if found is None {
        assert(unit_unresolved(index, u) =~= Set::empty());
    } else {
        let k0 = found->0 as int;
        let m = maps_for(index[k0].1, u.info.custom_build);
        let t = Set::new(|p: (int, Seq<char>)| p.0 == u.info.pkg as int
            && exists|j: int| 0 <= j < links.len() && p.1 == links[j]@
                && !has_key(m.links(), p.1) && !is_own_link(index[k0].1, p.1));
        assert forall|q: (int, Seq<char>)| unit_unresolved(index, u).contains(q) == t.contains(q) by {
            if unit_unresolved(index, u).contains(q) {
                let (k, j) = choose|k: int, j: int| 0 <= k < index.len() && index[k].0 == u.info.pkg
                    && 0 <= j < u.info.externs@.len() && q.1 == u.info.externs@[j].0@
                    && !has_key(maps_for(index[k].1, u.info.custom_build).links(), q.1)
                    && !is_own_link(index[k].1, q.1);
                assert(k == k0);
                assert(links[j]@ == u.info.externs@[j].0@);
            }
            if t.contains(q) {
                let j = choose|j: int| 0 <= j < links.len() && q.1 == links[j]@
                    && !has_key(m.links(), q.1) && !is_own_link(index[k0].1, q.1);
                assert(links[j]@ == u.info.externs@[j].0@);
            }
        }
        assert(unit_unresolved(index, u) =~= t);
    }
}

/// Gathers, for each category, the pairs that units reference and the pairs
/// that they are compiled against.
///
/// Units of packages outside the index, and link names that the index does not
/// know, add nothing.
pub fn correlate(index: &Vec<(usize, DependencyNames)>, units: &Vec<UnitUsage>) -> (r: Usage)
    requires
        keys_unique(index@),
    ensures
        dep_set(r.used_normal_dev@) == used_deps(index@, units@, false),
        dep_set(r.used_build@) == used_deps(index@, units@, true),
        dep_set(r.normal_dev@) == declared_deps(index@, units@, false),
        dep_set(r.build@) == declared_deps(index@, units@, true),
        dep_set(r.unresolved@) == unresolved_upto(index@, units@, units@.len() as int),
{
    let mut used_normal_dev: Vec<(usize, String)> = Vec::new();
    let mut used_build: Vec<(usize, String)> = Vec::new();
    let mut normal_dev: Vec<(usize, String)> = Vec::new();
    let mut build: Vec<(usize, String)> = Vec::new();
    let mut unresolved: Vec<(usize, String)> = Vec::new();
    let mut r: usize = 0;
    assert(dep_set(unresolved@) =~= Set::empty());
    assert(dep_set(used_normal_dev@) =~= Set::empty());
    assert(dep_set(used_build@) =~= Set::empty());
    assert(dep_set(normal_dev@) =~= Set::empty());
    assert(dep_set(build@) =~= Set::empty());
    while r < units.len()
        invariant
            keys_unique(index@),
            r <= units@.len(),
            dep_set(used_normal_dev@) == used_upto(index@, units@, r as int, false),
            dep_set(used_build@) == used_upto(index@, units@, r as int, true),
            dep_set(normal_dev@) == declared_upto(index@, units@, r as int, false),
            dep_set(build@) == declared_upto(index@, units@, r as int, true),
            dep_set(unresolved@) == unresolved_upto(index@, units@, r as int),
        decreases units.len() - r,
    {
        let u = &units[r];
        let found = find_pkg(index, u.info.pkg);
        let links = link_names(&u.info.externs);
        proof {
            lemma_unit_sets(index@, *u, false, found);
            lemma_unit_sets(index@, *u, true, found);
        }
        match found {
            Some(k) => {
                let names = &index[k].1;
                if u.info.custom_build {
                    add_all(&mut used_build, u.info.pkg, &u.external_crates, &names.build.by_lib_true_snakecased_name);
                    add_all(&mut build, u.info.pkg, &links, &names.build.by_extern_crate_name);
                } else {
                    add_all(&mut used_normal_dev, u.info.pkg, &u.external_crates, &names.normal_dev.by_lib_true_snakecased_name);
                    add_all(&mut normal_dev, u.info.pkg, &links, &names.normal_dev.by_extern_crate_name);
                }
                let maps = if u.info.custom_build { &names.build } else { &names.normal_dev };
                add_unresolved(&mut unresolved, u.info.pkg, &links, &maps.by_extern_crate_name, names);
                proof {
                    lemma_unit_unresolved(index@, *u, found, links@);
                    assert(Set::new(|p: (int, Seq<char>)| p.0 == u.info.pkg as int
                        && exists|j: int| 0 <= j < links@.len() && p.1 == links@[j]@
                            && !has_key(rel_of(maps.by_extern_crate_name@), p.1) && !is_own_link(*names, p.1))
                        =~= unit_unresolved(index@, *u));
                }
            },
            None => {
                proof {
                    lemma_unit_unresolved(index@, *u, found, links@);
                }
            },
        }
        proof {
            let e = Set::<(int, Seq<char>)>::empty();
            assert(used_upto(index@, units@, r as int, false).union(e) =~= used_upto(index@, units@, r as int, false));
            assert(used_upto(index@, units@, r as int, true).union(e) =~= used_upto(index@, units@, r as int, true));
            assert(declared_upto(index@, units@, r as int, false).union(e) =~= declared_upto(index@, units@, r as int, false));
            assert(declared_upto(index@, units@, r as int, true).union(e) =~= declared_upto(index@, units@, r as int, true));
            assert(unresolved_upto(index@, units@, r as int).union(e) =~= unresolved_upto(index@, units@, r as int));
        }
        r = r + 1;
    }
    Usage { used_normal_dev, used_build, normal_dev, build, unresolved }
}

} // verus!
