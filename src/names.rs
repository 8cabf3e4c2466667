//! The per-package index from compiler-visible names to manifest dependency names.
use vstd::prelude::*;
use crate::text::{snake_case, snake_cased, str_eq};

verus! {

/// The pairs that a list of string pairs holds, as views.
pub open spec fn rel_of(v: Seq<(String, String)>) -> Set<(Seq<char>, Seq<char>)> {
    Set::new(|p: (Seq<char>, Seq<char>)| exists|i: int| 0 <= i < v.len() && p == (v[i].0@, v[i].1@))
}

/// Each element of a list is among its pairs.
pub proof fn lemma_rel_of_index(v: Seq<(String, String)>, i: int)
    requires
        0 <= i < v.len(),
    ensures
        rel_of(v).contains((v[i].0@, v[i].1@)),
{
    let p = (v[i].0@, v[i].1@);
    assert(0 <= i < v.len() && p == (v[i].0@, v[i].1@));
}

/// Each pair of a list stands at some index of it.
pub proof fn lemma_rel_of_member(v: Seq<(String, String)>, p: (Seq<char>, Seq<char>))
    requires
        rel_of(v).contains(p),
    ensures
        exists|k: int| 0 <= k < v.len() && #[trigger] v[k].0@ == p.0 && v[k].1@ == p.1,
{
    let k = choose|k: int| 0 <= k < v.len() && p == (v[k].0@, v[k].1@);
    assert(v[k].0@ == p.0 && v[k].1@ == p.1);
}

/// The library a dependency edge resolves to.
#[derive(Clone, Debug)]
pub struct LibInfo {
    /// The name the compiler is given for the library in the consumer's units.
    pub link_name: String,
    /// The library target's own declared name.
    pub lib_name: String,
}

/// A resolved dependency of a package.
#[derive(Clone, Debug)]
pub struct DepEdge {
    /// The name under which the manifest declares the dependency.
    pub manifest_name: String,
    /// Whether the dependency is declared for the build script.
    pub is_build: bool,
    /// The library of the dependency's package, if it has one.
    pub lib: Option<LibInfo>,
}

/// The two lookups of one category of dependencies (normal and dev, or build).
pub struct NameMaps {
    /// `(link name, manifest name)` pairs.
    pub by_extern_crate_name: Vec<(String, String)>,
    /// `(canonical library name, manifest name)` pairs.
    pub by_lib_true_snakecased_name: Vec<(String, String)>,
}

impl NameMaps {
    pub open spec fn links(&self) -> Set<(Seq<char>, Seq<char>)> {
        rel_of(self.by_extern_crate_name@)
    }

    pub open spec fn libs(&self) -> Set<(Seq<char>, Seq<char>)> {
        rel_of(self.by_lib_true_snakecased_name@)
    }
}

/// The index of one package.
pub struct DependencyNames {
    /// The link name and package name of the package's own library, kept apart
    /// so that a unit that uses its own package's library is never a user of a
    /// dependency.
    pub own_lib: Option<(String, String)>,
    pub normal_dev: NameMaps,
    pub build: NameMaps,
}

/// The `(link name, manifest name)` pairs of the edges of one category.
pub open spec fn link_rel(edges: Seq<DepEdge>, build: bool) -> Set<(Seq<char>, Seq<char>)> {
    Set::new(|p: (Seq<char>, Seq<char>)| exists|i: int| 0 <= i < edges.len()
        && edges[i].is_build == build && edges[i].lib is Some
        && p == (edges[i].lib->0.link_name@, edges[i].manifest_name@))
}

/// The `(canonical library name, manifest name)` pairs of the edges of one category.
pub open spec fn lib_rel(edges: Seq<DepEdge>, build: bool) -> Set<(Seq<char>, Seq<char>)> {
    Set::new(|p: (Seq<char>, Seq<char>)| exists|i: int| 0 <= i < edges.len()
        && edges[i].is_build == build && edges[i].lib is Some
        && p == (snaked_lib(edges[i]), edges[i].manifest_name@))
}

/// The canonical name of an edge's library.
pub open spec fn snaked_lib(e: DepEdge) -> Seq<char> {
    snake_cased(e.lib->0.lib_name@)
}

/// Whether a pair is in a list, compared by characters.
fn contains_pair(v: &Vec<(String, String)>, a: &str, b: &str) -> (r: bool)
    ensures
        r == rel_of(v@).contains((a@, b@)),
{
    let mut i: usize = 0;
    while i < v.len()
        invariant
            i <= v@.len(),
            forall|j: int| 0 <= j < i ==> (v@[j].0@, v@[j].1@) != (a@, b@),
        decreases v.len() - i,
    {
        if str_eq(v[i].0.as_str(), a) && str_eq(v[i].1.as_str(), b) {
            assert(rel_of(v@).contains((a@, b@)));
            return true;
        }
        i = i + 1;
    }
    false
}

/// Adds a pair to a list unless it is there already.
fn insert_pair(v: &mut Vec<(String, String)>, a: String, b: String)
    ensures
        rel_of(final(v)@) == rel_of(old(v)@).insert((a@, b@)),
{
    if !contains_pair(v, a.as_str(), b.as_str()) {
        let ghost p = (a@, b@);
        v.push((a, b));
        assert forall|q: (Seq<char>, Seq<char>)| rel_of(final(v)@).contains(q) == rel_of(old(v)@).insert(p).contains(q) by {
            if rel_of(old(v)@).contains(q) {
                let i = choose|i: int| 0 <= i < old(v)@.len() && q == (old(v)@[i].0@, old(v)@[i].1@);
                assert(final(v)@[i] == old(v)@[i]);
            }
            if rel_of(final(v)@).contains(q) {
                let i = choose|i: int| 0 <= i < final(v)@.len() && q == (final(v)@[i].0@, final(v)@[i].1@);
                if i < old(v)@.len() {
                    assert(final(v)@[i] == old(v)@[i]);
                }
            }
            if q == p {
                assert(final(v)@[old(v)@.len() as int] == (a, b));
            }
        }
        assert(rel_of(final(v)@) =~= rel_of(old(v)@).insert(p));
    } else {
        assert(rel_of(final(v)@) =~= rel_of(old(v)@).insert((a@, b@)));
    }
}

/// Why a package's index could not be built.
#[derive(Clone, Debug, PartialEq, Eq)]
pub enum NamesError {
    /// The named dependency's package exposes no library.
    NoLibTarget(String),
}

impl DependencyNames {
    /// Builds the index of a package from its own library and its resolved
    /// dependency edges.
    ///
    /// Fails when an edge leads to a package without a library.
    pub fn new(own_lib: Option<(String, String)>, edges: &Vec<DepEdge>) -> (r: Result<DependencyNames, NamesError>)
        ensures
            match r {
                Ok(d) => {
                    &&& forall|i: int| 0 <= i < edges@.len() ==> edges@[i].lib is Some
                    &&& d.own_lib == own_lib
                    &&& d.normal_dev.links() == link_rel(edges@, false)
                    &&& d.normal_dev.libs() == lib_rel(edges@, false)
                    &&& d.build.links() == link_rel(edges@, true)
                    &&& d.build.libs() == lib_rel(edges@, true)
                },
                Err(NamesError::NoLibTarget(n)) => exists|i: int| 0 <= i < edges@.len()
                    && edges@[i].lib is None && edges@[i].manifest_name@ == n@,
            },
    {
        let mut nd_links: Vec<(String, String)> = Vec::new();
        let mut nd_libs: Vec<(String, String)> = Vec::new();
        let mut b_links: Vec<(String, String)> = Vec::new();
        let mut b_libs: Vec<(String, String)> = Vec::new();
        let mut i: usize = 0;
        assert(rel_of(nd_links@) =~= link_rel(edges@.take(0), false));
        assert(rel_of(nd_libs@) =~= lib_rel(edges@.take(0), false));
        assert(rel_of(b_links@) =~= link_rel(edges@.take(0), true));
        assert(rel_of(b_libs@) =~= lib_rel(edges@.take(0), true));
        while i < edges.len()
            invariant
                i <= edges@.len(),
                forall|j: int| 0 <= j < i ==> edges@[j].lib is Some,
                rel_of(nd_links@) == link_rel(edges@.take(i as int), false),
                rel_of(nd_libs@) == lib_rel(edges@.take(i as int), false),
                rel_of(b_links@) == link_rel(edges@.take(i as int), true),
                rel_of(b_libs@) == lib_rel(edges@.take(i as int), true),
            decreases edges.len() - i,
        {
            let e = &edges[i];
            let lib = match &e.lib {
                Some(l) => l,
                None => return Err(NamesError::NoLibTarget(e.manifest_name.clone())),
            };
            let key = snake_case(lib.lib_name.as_str());
            let ghost pre = edges@.take(i as int);
            let ghost post = edges@.take(i + 1);
            assert(post == pre.push(*e));
            let ghost lp = (lib.link_name@, e.manifest_name@);
            let ghost bp = (key@, e.manifest_name@);
            if e.is_build {
                insert_pair(&mut b_links, lib.link_name.clone(), e.manifest_name.clone());
                insert_pair(&mut b_libs, key, e.manifest_name.clone());
            } else {
                insert_pair(&mut nd_links, lib.link_name.clone(), e.manifest_name.clone());
                insert_pair(&mut nd_libs, key, e.manifest_name.clone());
            }
            proof {
                assert forall|q: (Seq<char>, Seq<char>)| #![auto]
                    link_rel(post, e.is_build).contains(q) == link_rel(pre, e.is_build).insert(lp).contains(q)
                    && lib_rel(post, e.is_build).contains(q) == lib_rel(pre, e.is_build).insert(bp).contains(q)
                    && link_rel(post, !e.is_build).contains(q) == link_rel(pre, !e.is_build).contains(q)
                    && lib_rel(post, !e.is_build).contains(q) == lib_rel(pre, !e.is_build).contains(q) by {
                    assert(post[i as int] == *e);
                    assert forall|j: int| 0 <= j < i implies post[j] == pre[j] by {}
                }
                assert(link_rel(post, e.is_build) =~= link_rel(pre, e.is_build).insert(lp));
                assert(lib_rel(post, e.is_build) =~= lib_rel(pre, e.is_build).insert(bp));
                assert(link_rel(post, !e.is_build) =~= link_rel(pre, !e.is_build));
                assert(lib_rel(post, !e.is_build) =~= lib_rel(pre, !e.is_build));
            }
            i = i + 1;
        }
        assert(edges@.take(i as int) == edges@);
        Ok(DependencyNames {
            own_lib,
            normal_dev: NameMaps { by_extern_crate_name: nd_links, by_lib_true_snakecased_name: nd_libs },
            build: NameMaps { by_extern_crate_name: b_links, by_lib_true_snakecased_name: b_libs },
        })
    }
}

/// The `(manifest name, canonical library name)` pairs whose library name is
/// shared by more than one manifest name of the same category.
pub open spec fn ambiguous_rel(libs: Set<(Seq<char>, Seq<char>)>) -> Set<(Seq<char>, Seq<char>)> {
    Set::new(|p: (Seq<char>, Seq<char>)| libs.contains((p.1, p.0))
        && exists|d: Seq<char>| d != p.0 && libs.contains((p.1, d)))
}

impl NameMaps {
    /// The manifest names, with their library name, whose usage cannot be told
    /// apart from that of another dependency of the same category.
    pub fn ambiguous_names(&self) -> (r: Vec<(String, String)>)
        ensures
            rel_of(r@) == ambiguous_rel(self.libs()),
    {
        let v = &self.by_lib_true_snakecased_name;
        let mut out: Vec<(String, String)> = Vec::new();
        let mut i: usize = 0;
        assert(rel_of(out@) =~= Set::empty());
        while i < v.len()
            invariant
                v@ == self.by_lib_true_snakecased_name@,
                i <= v@.len(),
                rel_of(out@) == ambiguous_rel(self.libs()).filter(
                    |p: (Seq<char>, Seq<char>)| exists|j: int| 0 <= j < i && p == (v@[j].1@, v@[j].0@)),
            decreases v.len() - i,
        {
            let mut shared = false;
            let mut j: usize = 0;
            while j < v.len()
                invariant
                    v@ == self.by_lib_true_snakecased_name@,
                    i < v@.len(),
                    j <= v@.len(),
                    shared == exists|k: int| 0 <= k < j && v@[k].0@ == v@[i as int].0@ && v@[k].1@ != v@[i as int].1@,
                decreases v.len() - j,
            {
                if str_eq(v[j].0.as_str(), v[i].0.as_str()) && !str_eq(v[j].1.as_str(), v[i].1.as_str()) {
                    shared = true;
                }
                j = j + 1;
            }
            let ghost old_out = out@;
            let ghost p = (v@[i as int].1@, v@[i as int].0@);
            let ghost libs = self.libs();
            proof {
                lemma_rel_of_index(v@, i as int);
            }
            proof {
                if shared {
                    let k = choose|k: int| 0 <= k < j && v@[k].0@ == v@[i as int].0@ && v@[k].1@ != v@[i as int].1@;
                    lemma_rel_of_index(v@, k);
                } else {
                    assert forall|d: Seq<char>| d != p.0 implies !libs.contains((p.1, d)) by {
                        if libs.contains((p.1, d)) {
                            lemma_rel_of_member(v@, (p.1, d));
                            let k = choose|k: int| 0 <= k < v@.len() && #[trigger] v@[k].0@ == p.1 && v@[k].1@ == d;
                            assert(j == v@.len());
                            assert(0 <= k < j && v@[k].0@ == v@[i as int].0@ && v@[k].1@ != v@[i as int].1@);
                        }
                    }
                }
            }
            if shared {
                out.push((v[i].1.clone(), v[i].0.clone()));
            }
            proof {
                let f = |p: (Seq<char>, Seq<char>)| exists|j: int| 0 <= j < i && p == (v@[j].1@, v@[j].0@);
                let g = |p: (Seq<char>, Seq<char>)| exists|j: int| 0 <= j < i + 1 && p == (v@[j].1@, v@[j].0@);
                assert forall|q: (Seq<char>, Seq<char>)| rel_of(out@).contains(q)
                    == ambiguous_rel(libs).filter(g).contains(q) by {
                    if rel_of(old_out).contains(q) {
                        let k = choose|k: int| 0 <= k < old_out.len() && q == (old_out[k].0@, old_out[k].1@);
                        assert(out@[k] == old_out[k]);
                    }
                    if rel_of(out@).contains(q) {
                        let k = choose|k: int| 0 <= k < out@.len() && q == (out@[k].0@, out@[k].1@);
                        if k < old_out.len() {
                            assert(out@[k] == old_out[k]);
                            assert(rel_of(old_out).contains(q));
                        }
                    }
                    if g(q) && !f(q) {
                        assert(q == p);
                        if shared {
                            assert(out@[old_out.len() as int].0@ == p.0);
                            assert(out@[old_out.len() as int].1@ == p.1);
                            lemma_rel_of_index(out@, old_out.len() as int);
                            assert(rel_of(out@).contains(q));
                            assert(ambiguous_rel(libs).contains(q));
                        } else {
                            assert(!ambiguous_rel(libs).contains(q));
                        }
                    }
                    if f(q) {
                        let k = choose|k: int| 0 <= k < i && q == (v@[k].1@, v@[k].0@);
                        assert(g(q));
                    }
                }
                assert(rel_of(out@) =~= ambiguous_rel(libs).filter(g));
            }
            i = i + 1;
        }
        proof {
            let libs = self.libs();
            let g = |p: (Seq<char>, Seq<char>)| exists|j: int| 0 <= j < i && p == (v@[j].1@, v@[j].0@);
            assert forall|q: (Seq<char>, Seq<char>)| ambiguous_rel(libs).contains(q) implies g(q) by {
                let k = choose|k: int| 0 <= k < v@.len() && (q.1, q.0) == (v@[k].0@, v@[k].1@);
            }
            assert(ambiguous_rel(libs).filter(g) =~= ambiguous_rel(libs));
        }
        out
    }
}

} // verus!
