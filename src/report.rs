//! The unused dependencies of each package, per category.
use vstd::prelude::*;
use crate::names::DependencyNames;
use crate::text::{lex_lt, str_eq, str_lt};
use crate::usage::{correlate, declared_deps, dep_set, keys_unique, used_deps, UnitUsage, Usage};

verus! {

/// The names that a list holds, as views.
pub open spec fn name_set(v: Seq<String>) -> Set<Seq<char>> {
    Set::new(|d: Seq<char>| exists|i: int| 0 <= i < v.len() && d == v[i]@)
}

/// Whether each name of a list comes strictly before the next.
pub open spec fn sorted(v: Seq<String>) -> bool {
    forall|i: int| 0 <= i < v.len() - 1 ==> lex_lt(#[trigger] v[i]@, v[i + 1]@)
}

/// The names of package `pkg` that are declared and not used.
pub open spec fn unused_of(declared: Set<(int, Seq<char>)>, used: Set<(int, Seq<char>)>, pkg: int) -> Set<Seq<char>> {
    Set::new(|d: Seq<char>| declared.contains((pkg, d)) && !used.contains((pkg, d)))
}

/// The unused dependencies of one package.
pub struct UnusedDeps {
    pub pkg: usize,
    /// Unused normal and dev dependencies, in order of their names.
    pub normal_dev: Vec<String>,
    /// Unused build dependencies, in order of their names.
    pub build: Vec<String>,
}

impl UnusedDeps {
    /// Whether the package has an unused dependency of either category.
    pub fn has_unused(&self) -> (r: bool)
        ensures
            r == (self.normal_dev@.len() > 0 || self.build@.len() > 0),
    {
        self.normal_dev.len() > 0 || self.build.len() > 0
    }
}

/// Of two different sequences, one comes before the other.
pub proof fn lemma_lex_total(a: Seq<char>, b: Seq<char>)
    requires
        a != b,
    ensures
        lex_lt(a, b) || lex_lt(b, a),
    decreases a.len(),
{
    if a.len() == 0 || b.len() == 0 {
        if a.len() == 0 && b.len() == 0 {
            assert(a =~= b);
        }
    } else if a[0] != b[0] {
        assert((a[0] as int) != (b[0] as int));
    } else {
        if a.drop_first() == b.drop_first() {
            assert(a =~= seq![a[0]] + a.drop_first());
            assert(b =~= seq![b[0]] + b.drop_first());
        }
        lemma_lex_total(a.drop_first(), b.drop_first());
    }
}

/// Adds a name to a sorted list, in its place, unless it is there already.
fn insert_sorted(v: &mut Vec<String>, x: String)
    ensures
        name_set(final(v)@) == name_set(old(v)@).insert(x@),
        sorted(old(v)@) ==> sorted(final(v)@),
{
    let mut p: usize = 0;
    while p < v.len() && str_lt(v[p].as_str(), x.as_str())
        invariant
            p <= v@.len(),
            forall|j: int| 0 <= j < p ==> lex_lt(#[trigger] v@[j]@, x@),
        decreases v.len() - p,
    {
        p = p + 1;
    }
    if p < v.len() && str_eq(v[p].as_str(), x.as_str()) {
        assert(name_set(v@).insert(x@) =~= name_set(v@)) by {
            assert(name_set(v@).contains(v@[p as int]@));
        }
        return;
    }
    let ghost o = v@;
    let ghost xv = x@;
    proof {
        if p < o.len() {
            lemma_lex_total(o[p as int]@, xv);
        }
    }
    v.insert(p, x);
    assert(v@ == o.insert(p as int, x));
    assert forall|d: Seq<char>| name_set(v@).contains(d) == name_set(o).insert(xv).contains(d) by {
        if name_set(o).contains(d) {
            let i = choose|i: int| 0 <= i < o.len() && d == o[i]@;
            if i < p {
                assert(v@[i] == o[i]);
            } else {
                assert(v@[i + 1] == o[i]);
            }
        }
        if d == xv {
            assert(v@[p as int]@ == xv);
        }
        if name_set(v@).contains(d) {
            let i = choose|i: int| 0 <= i < v@.len() && d == v@[i]@;
            if i < p {
                assert(v@[i] == o[i]);
            } else if i > p {
                assert(v@[i] == o[i - 1]);
            }
        }
    }
    assert(name_set(v@) =~= name_set(o).insert(xv));
    proof {
        if sorted(o) {
            assert forall|i: int| 0 <= i < v@.len() - 1 implies lex_lt(#[trigger] v@[i]@, v@[i + 1]@) by {
                if i + 1 < p {
                    assert(v@[i] == o[i] && v@[i + 1] == o[i + 1]);
                } else if i + 1 == p {
                    assert(v@[i] == o[i]);
                } else if i == p {
                    assert(v@[i + 1] == o[i]);
                } else {
                    assert(v@[i] == o[i - 1] && v@[i + 1] == o[i]);
                }
            }
        }
    }
}

/// Whether `(pkg, name)` is among the pairs of a list.
fn contains_dep(v: &Vec<(usize, String)>, pkg: usize, name: &str) -> (r: bool)
    ensures
        r == dep_set(v@).contains((pkg as int, name@)),
{
    let mut i: usize = 0;
    while i < v.len()
        invariant
            i <= v@.len(),
            forall|j: int| 0 <= j < i ==> (v@[j].0 as int, v@[j].1@) != (pkg as int, name@),
        decreases v.len() - i,
    {
        if v[i].0 == pkg && str_eq(v[i].1.as_str(), name) {
            assert((pkg as int, name@) == (v@[i as int].0 as int, v@[i as int].1@));
            return true;
        }
        i = i + 1;
    }
    false
}

/// The sorted names of package `pkg` that are in `declared` and not in `used`.
fn unused_names(pkg: usize, declared: &Vec<(usize, String)>, used: &Vec<(usize, String)>) -> (r: Vec<String>)
    ensures
        name_set(r@) == unused_of(dep_set(declared@), dep_set(used@), pkg as int),
        sorted(r@),
{
    let ghost target = unused_of(dep_set(declared@), dep_set(used@), pkg as int);
    let mut r: Vec<String> = Vec::new();
    let mut i: usize = 0;
    assert(name_set(r@) =~= Set::empty());
    assert(target.filter(|d: Seq<char>| exists|j: int| 0 <= j < 0 && d == declared@[j].1@) =~= Set::empty());
    while i < declared.len()
        invariant
            i <= declared@.len(),
            target == unused_of(dep_set(declared@), dep_set(used@), pkg as int),
            sorted(r@),
            name_set(r@) == target.filter(|d: Seq<char>| exists|j: int| 0 <= j < i && d == declared@[j].1@
                && declared@[j].0 == pkg),
        decreases declared.len() - i,
    {
        let ghost before = name_set(r@);
        let ghost di = declared@[i as int];
        let keep = declared[i].0 == pkg && !contains_dep(used, pkg, declared[i].1.as_str());
        if keep {
            insert_sorted(&mut r, declared[i].1.clone());
        }
        proof {
            let f = |d: Seq<char>| exists|j: int| 0 <= j < i && d == declared@[j].1@ && declared@[j].0 == pkg;
            let g = |d: Seq<char>| exists|j: int| 0 <= j < i + 1 && d == declared@[j].1@ && declared@[j].0 == pkg;
            if di.0 == pkg {
                assert((di.0 as int, di.1@) == (declared@[i as int].0 as int, declared@[i as int].1@));
                assert(dep_set(declared@).contains((pkg as int, di.1@)));
            }
            assert forall|d: Seq<char>| name_set(r@).contains(d) == target.filter(g).contains(d) by {
                if f(d) {
                    let j = choose|j: int| 0 <= j < i && d == declared@[j].1@ && declared@[j].0 == pkg;
                    assert(g(d));
                }
                if g(d) && !f(d) {
                    assert(d == di.1@ && di.0 == pkg);
                }
            }
            assert(name_set(r@) =~= target.filter(g));
        }
        i = i + 1;
    }
    proof {
        let g = |d: Seq<char>| exists|j: int| 0 <= j < i && d == declared@[j].1@ && declared@[j].0 == pkg;
        assert forall|d: Seq<char>| target.contains(d) implies g(d) by {
            let j = choose|j: int| 0 <= j < declared@.len() && (pkg as int, d) == (declared@[j].0 as int, declared@[j].1@);
        }
        assert(target.filter(g) =~= target);
    }
    r
}

/// The unused dependencies of each package of the index, in the index's order:
/// for each category, the declared names minus the used ones, in order of name.
pub fn unused_dependencies(index: &Vec<(usize, DependencyNames)>, usage: &Usage) -> (r: Vec<UnusedDeps>)
    ensures
        r@.len() == index@.len(),
        forall|i: int| 0 <= i < r@.len() ==> {
            let e = #[trigger] r@[i];
            &&& e.pkg == index@[i].0
            &&& name_set(e.normal_dev@) == unused_of(dep_set(usage.normal_dev@),
                dep_set(usage.used_normal_dev@), e.pkg as int)
            &&& name_set(e.build@) == unused_of(dep_set(usage.build@), dep_set(usage.used_build@), e.pkg as int)
            &&& sorted(e.normal_dev@)
            &&& sorted(e.build@)
        },
{
    let mut r: Vec<UnusedDeps> = Vec::new();
    let mut i: usize = 0;
    while i < index.len()
        invariant
            i <= index@.len(),
            r@.len() == i,
            forall|k: int| 0 <= k < r@.len() ==> {
                let e = #[trigger] r@[k];
                &&& e.pkg == index@[k].0
                &&& name_set(e.normal_dev@) == unused_of(dep_set(usage.normal_dev@),
                    dep_set(usage.used_normal_dev@), e.pkg as int)
                &&& name_set(e.build@) == unused_of(dep_set(usage.build@), dep_set(usage.used_build@), e.pkg as int)
                &&& sorted(e.normal_dev@)
                &&& sorted(e.build@)
            },
        decreases index.len() - i,
    {
        let pkg = index[i].0;
        let normal_dev = unused_names(pkg, &usage.normal_dev, &usage.used_normal_dev);
        let build = unused_names(pkg, &usage.build, &usage.used_build);
        r.push(UnusedDeps { pkg, normal_dev, build });
        i = i + 1;
    }
    r
}

/// Whether `r` lists, for each package of the index in its order, the unused
/// dependencies of each category that the units show.
pub open spec fn is_unused_report(index: Seq<(usize, DependencyNames)>, units: Seq<UnitUsage>, r: Seq<UnusedDeps>) -> bool {
    &&& r.len() == index.len()
    &&& forall|i: int| 0 <= i < r.len() ==> {
        let e = #[trigger] r[i];
        &&& e.pkg == index[i].0
        &&& name_set(e.normal_dev@) == unused_of(declared_deps(index, units, false),
            used_deps(index, units, false), e.pkg as int)
        &&& name_set(e.build@) == unused_of(declared_deps(index, units, true),
            used_deps(index, units, true), e.pkg as int)
        &&& sorted(e.normal_dev@)
        &&& sorted(e.build@)
    }
}

/// The unused dependencies of each package of the index, from the units that
/// a build compiled.
pub fn find_unused(index: &Vec<(usize, DependencyNames)>, units: &Vec<UnitUsage>) -> (r: Vec<UnusedDeps>)
    requires
        keys_unique(index@),
    ensures
        is_unused_report(index@, units@, r@),
{
    let usage = correlate(index, units);
    unused_dependencies(index, &usage)
}

/// Whether any package of a report has an unused dependency.
pub fn any_unused(r: &Vec<UnusedDeps>) -> (b: bool)
    ensures
        b == exists|i: int| 0 <= i < r@.len() && (r@[i].normal_dev@.len() > 0 || r@[i].build@.len() > 0),
{
    let mut i: usize = 0;
    while i < r.len()
        invariant
            i <= r@.len(),
            forall|k: int| 0 <= k < i ==> !(r@[k].normal_dev@.len() > 0 || r@[k].build@.len() > 0),
        decreases r.len() - i,
    {
        if r[i].has_unused() {
            return true;
        }
        i = i + 1;
    }
    false
}

} // verus!
