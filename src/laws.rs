//! Properties that tie the index, the correlation and the report together.
use vstd::prelude::*;
use crate::names::{ambiguous_rel, lib_rel, snaked_lib, DepEdge, DependencyNames};
use crate::report::{is_unused_report, name_set, unused_of, UnusedDeps};
use crate::usage::{declared_deps, maps_for, unit_used, used_deps, used_upto, UnitUsage};

verus! {

/// A pair is used over the first `n` units exactly when one of them uses it.
pub proof fn lemma_used_upto(index: Seq<(usize, DependencyNames)>, units: Seq<UnitUsage>, n: int, build: bool, p: (int, Seq<char>))
    requires
        0 <= n <= units.len(),
    ensures
        used_upto(index, units, n, build).contains(p)
            <==> exists|u: int| 0 <= u < n && #[trigger] unit_used(index, units[u], build).contains(p),
    decreases n,
{
    if n > 0 {
        lemma_used_upto(index, units, n - 1, build, p);
        if unit_used(index, units[n - 1], build).contains(p) {
            assert(used_upto(index, units, n, build).contains(p));
        }
    }
}

/// A unit that references a library marks as used, in its own category, every
/// manifest name that its package's index maps that library to.
proof fn lemma_reference_used(index: Seq<(usize, DependencyNames)>, units: Seq<UnitUsage>, u: int, k: int, j: int, d: Seq<char>)
    requires
        0 <= u < units.len(),
        0 <= k < index.len(),
        index[k].0 == units[u].info.pkg,
        0 <= j < units[u].external_crates@.len(),
        maps_for(index[k].1, units[u].info.custom_build).libs().contains((units[u].external_crates@[j]@, d)),
    ensures
        used_deps(index, units, units[u].info.custom_build).contains((units[u].info.pkg as int, d)),
{
    let b = units[u].info.custom_build;
    let p = (units[u].info.pkg as int, d);
    let x = units[u];
    assert(0 <= k < index.len() && index[k].0 == x.info.pkg && 0 <= j < x.external_crates@.len()
        && maps_for(index[k].1, b).libs().contains((x.external_crates@[j]@, p.1)));
    assert(unit_used(index, x, b).contains(p));
    lemma_used_upto(index, units, units.len() as int, b, p);
}

/// Two reports of the same units over the same index agree: each package has
/// the same unused dependencies in each category.
pub proof fn lemma_report_deterministic(index: Seq<(usize, DependencyNames)>, units: Seq<UnitUsage>, r1: Seq<UnusedDeps>, r2: Seq<UnusedDeps>)
    requires
        is_unused_report(index, units, r1),
        is_unused_report(index, units, r2),
    ensures
        r1.len() == r2.len(),
        forall|i: int| 0 <= i < r1.len() ==> #[trigger] r1[i].pkg == r2[i].pkg
            && name_set(r1[i].normal_dev@) == name_set(r2[i].normal_dev@)
            && name_set(r1[i].build@) == name_set(r2[i].build@),
{
    assert forall|i: int| 0 <= i < r1.len() implies #[trigger] r1[i].pkg == r2[i].pkg
        && name_set(r1[i].normal_dev@) == name_set(r2[i].normal_dev@)
        && name_set(r1[i].build@) == name_set(r2[i].build@) by {
        assert(r1[i].pkg == index[i].0 && r2[i].pkg == index[i].0);
    }
}

/// A dependency whose library a unit's source references is never reported
/// unused for that unit's package and category.
pub proof fn lemma_referenced_not_unused(index: Seq<(usize, DependencyNames)>, units: Seq<UnitUsage>, r: Seq<UnusedDeps>, u: int, k: int, j: int, d: Seq<char>)
    requires
        is_unused_report(index, units, r),
        0 <= u < units.len(),
        0 <= k < index.len(),
        index[k].0 == units[u].info.pkg,
        0 <= j < units[u].external_crates@.len(),
        maps_for(index[k].1, units[u].info.custom_build).libs().contains((units[u].external_crates@[j]@, d)),
    ensures
        units[u].info.custom_build ==> !name_set(r[k].build@).contains(d),
        !units[u].info.custom_build ==> !name_set(r[k].normal_dev@).contains(d),
{
    lemma_reference_used(index, units, u, k, j, d);
    let e = r[k];
    assert(e.pkg == index[k].0);
}

/// A dependency declared under one manifest name and linked under another is
/// marked used when a unit of its category references its library: matching
/// goes by the library's canonical name, not by the link name.
pub proof fn lemma_renamed_dependency_used(edges: Seq<DepEdge>, names: DependencyNames, index: Seq<(usize, DependencyNames)>, units: Seq<UnitUsage>, e: int, k: int, u: int, j: int)
    requires
        0 <= e < edges.len(),
        edges[e].lib is Some,
        0 <= k < index.len(),
        index[k].1 == names,
        names.normal_dev.libs() == lib_rel(edges, false),
        names.build.libs() == lib_rel(edges, true),
        0 <= u < units.len(),
        units[u].info.pkg == index[k].0,
        units[u].info.custom_build == edges[e].is_build,
        0 <= j < units[u].external_crates@.len(),
        units[u].external_crates@[j]@ == snaked_lib(edges[e]),
    ensures
        used_deps(index, units, edges[e].is_build).contains((index[k].0 as int, edges[e].manifest_name@)),
{
    let b = edges[e].is_build;
    let p = (snaked_lib(edges[e]), edges[e].manifest_name@);
    assert(lib_rel(edges, b).contains(p));
    assert(maps_for(names, b).libs().contains(p));
    lemma_reference_used(index, units, u, k, j, edges[e].manifest_name@);
}

/// Two dependencies of one category whose libraries share a canonical name are
/// both marked used when a unit of that category references the name, and both
/// are listed as ambiguous.
pub proof fn lemma_ambiguous_both_used(edges: Seq<DepEdge>, names: DependencyNames, index: Seq<(usize, DependencyNames)>, units: Seq<UnitUsage>, e1: int, e2: int, k: int, u: int, j: int)
    requires
        0 <= e1 < edges.len(),
        0 <= e2 < edges.len(),
        edges[e1].lib is Some,
        edges[e2].lib is Some,
        edges[e1].is_build == edges[e2].is_build,
        snaked_lib(edges[e1]) == snaked_lib(edges[e2]),
        edges[e1].manifest_name@ != edges[e2].manifest_name@,
        0 <= k < index.len(),
        index[k].1 == names,
        names.normal_dev.libs() == lib_rel(edges, false),
        names.build.libs() == lib_rel(edges, true),
        0 <= u < units.len(),
        units[u].info.pkg == index[k].0,
        units[u].info.custom_build == edges[e1].is_build,
        0 <= j < units[u].external_crates@.len(),
        units[u].external_crates@[j]@ == snaked_lib(edges[e1]),
    ensures
        used_deps(index, units, edges[e1].is_build).contains((index[k].0 as int, edges[e1].manifest_name@)),
        used_deps(index, units, edges[e1].is_build).contains((index[k].0 as int, edges[e2].manifest_name@)),
        ambiguous_rel(maps_for(names, edges[e1].is_build).libs()).contains((edges[e1].manifest_name@, snaked_lib(edges[e1]))),
        ambiguous_rel(maps_for(names, edges[e1].is_build).libs()).contains((edges[e2].manifest_name@, snaked_lib(edges[e1]))),
{
    lemma_renamed_dependency_used(edges, names, index, units, e1, k, u, j);
    lemma_renamed_dependency_used(edges, names, index, units, e2, k, u, j);
    let b = edges[e1].is_build;
    let l = snaked_lib(edges[e1]);
    let libs = maps_for(names, b).libs();
    assert(lib_rel(edges, b).contains((l, edges[e1].manifest_name@)));
    assert(lib_rel(edges, b).contains((snaked_lib(edges[e2]), edges[e2].manifest_name@)));
    assert(libs.contains((l, edges[e2].manifest_name@)));
    assert(libs.contains((l, edges[e1].manifest_name@)));
}

/// A build dependency that no build script of its package references is
/// reported unused in the build category, whatever the package's other units
/// reference, also under the same name.
pub proof fn lemma_build_category_independent(index: Seq<(usize, DependencyNames)>, units: Seq<UnitUsage>, r: Seq<UnusedDeps>, k: int, d: Seq<char>)
    requires
        is_unused_report(index, units, r),
        0 <= k < index.len(),
        declared_deps(index, units, true).contains((index[k].0 as int, d)),
        forall|u: int, k2: int, j: int| 0 <= u < units.len() && units[u].info.custom_build
            && units[u].info.pkg == index[k].0 && 0 <= k2 < index.len() && index[k2].0 == index[k].0
            && 0 <= j < units[u].external_crates@.len()
            ==> !(#[trigger] index[k2].1.build.libs()).contains((#[trigger] units[u].external_crates@[j]@, d)),
    ensures
        name_set(r[k].build@).contains(d),
{
    let p = (index[k].0 as int, d);
    lemma_used_upto(index, units, units.len() as int, true, p);
    if used_deps(index, units, true).contains(p) {
        let u = choose|u: int| 0 <= u < units.len() && #[trigger] unit_used(index, units[u], true).contains(p);
        let (k2, j) = choose|k2: int, j: int| 0 <= k2 < index.len() && index[k2].0 == units[u].info.pkg
            && 0 <= j < units[u].external_crates@.len()
            && maps_for(index[k2].1, true).libs().contains((units[u].external_crates@[j]@, p.1));
        assert(index[k2].1.build.libs().contains((units[u].external_crates@[j]@, d)));
    }
    let e = r[k];
    assert(e.pkg == index[k].0);
    assert(unused_of(declared_deps(index, units, true), used_deps(index, units, true), e.pkg as int).contains(d));
}

} // verus!
