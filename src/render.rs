//! The text of the report.
use vstd::prelude::*;
use vstd::string::*;
use crate::invocation::views;
use crate::report::UnusedDeps;

verus! {

/// A name between double quotes.
pub open spec fn quoted(s: Seq<char>) -> Seq<char> {
    "\""@ + s + "\""@
}

/// The lines of one branch of a package's tree: a heading, then one line per
/// name. No lines when there are no names.
pub open spec fn branch_lines(items: Seq<Seq<char>>, edge: Seq<char>, joint: Seq<char>, prefix: Seq<char>) -> Seq<Seq<char>> {
    if items.len() == 0 {
        Seq::empty()
    } else {
        seq![joint + "─── "@ + prefix + "dependencies"@] + Seq::new(items.len(), |i: int|
            edge + "    "@ + (if i + 1 < items.len() { "├"@ } else { "└"@ }) + "─── "@ + quoted(items[i]))
    }
}

/// The lines of one package: its name, then its normal and dev branch, then
/// its build branch.
pub open spec fn entry_lines(name: Seq<char>, normal_dev: Seq<Seq<char>>, build: Seq<Seq<char>>) -> Seq<Seq<char>> {
    let (edge, joint) = if build.len() == 0 { (" "@, "└"@) } else { ("│"@, "├"@) };
    seq!["`"@ + name + "`"@] + branch_lines(normal_dev, edge, joint, "(dev-)"@)
        + branch_lines(build, " "@, "└"@, "build-"@)
}

/// The lines of the first `n` entries that have an unused dependency.
pub open spec fn entries_lines(r: Seq<UnusedDeps>, names: Seq<Seq<char>>, n: int) -> Seq<Seq<char>>
    decreases n,
{
    if n <= 0 {
        Seq::empty()
    } else {
        let e = r[n - 1];
        entries_lines(r, names, n - 1) + (if e.normal_dev@.len() > 0 || e.build@.len() > 0 {
            entry_lines(names[e.pkg as int], views(e.normal_dev@), views(e.build@))
        } else {
            Seq::empty()
        })
    }
}

/// The whole report: the trees of the packages with unused dependencies, or a
/// line that says that there are none.
pub open spec fn report_lines(r: Seq<UnusedDeps>, names: Seq<Seq<char>>) -> Seq<Seq<char>> {
    if exists|i: int| 0 <= i < r.len() && (r[i].normal_dev@.len() > 0 || r[i].build@.len() > 0) {
        seq!["unused dependencies:"@] + entries_lines(r, names, r.len() as int)
    } else {
        seq!["All deps seem to have been used."@]
    }
}

/// Concatenates three strings.
fn concat3(a: &str, b: &str, c: &str) -> (r: String)
    ensures
        r@ == a@ + b@ + c@,
{
    let mut s = String::from_str(a);
    s.append(b);
    s.append(c);
    s
}

/// Appends the lines of one branch.
fn push_branch(out: &mut Vec<String>, items: &Vec<String>, edge: &str, joint: &str, prefix: &str)
    ensures
        views(final(out)@) == views(old(out)@) + branch_lines(views(items@), edge@, joint@, prefix@),
{
    let ghost iv = views(items@);
    if items.len() == 0 {
        assert(views(out@) =~= views(out@) + branch_lines(iv, edge@, joint@, prefix@));
        return;
    }
    let ghost o = views(out@);
    let mut head = concat3(joint, "─── ", prefix);
    head.append("dependencies");
    out.push(head);
    let ghost tail = Seq::new(iv.len(), |i: int|
        edge@ + "    "@ + (if i + 1 < iv.len() { "├"@ } else { "└"@ }) + "─── "@ + quoted(iv[i]));
    assert(views(out@) =~= o + seq![joint@ + "─── "@ + prefix@ + "dependencies"@]);
    let mut i: usize = 0;
    while i < items.len()
        invariant
            iv == views(items@),
            iv.len() > 0,
            i <= items@.len(),
            tail == Seq::new(iv.len(), |i: int|
                edge@ + "    "@ + (if i + 1 < iv.len() { "├"@ } else { "└"@ }) + "─── "@ + quoted(iv[i])),
            views(out@) == o + seq![joint@ + "─── "@ + prefix@ + "dependencies"@] + tail.take(i as int),
        decreases items.len() - i,
    {
        let mark = if i + 1 < items.len() { "├" } else { "└" };
        let mut line = concat3(edge, "    ", mark);
        line.append("─── ");
        line.append("\"");
        line.append(items[i].as_str());
        line.append("\"");
        let ghost before = views(out@);
        out.push(line);
        assert(tail[i as int] == line@);
        assert(tail.take(i + 1) == tail.take(i as int).push(tail[i as int]));
        assert(views(out@) =~= before.push(line@));
        i = i + 1;
    }
    assert(tail.take(i as int) == tail);
}

/// The lines of the report for the entries of `r`, naming each package by
/// its entry in `names`.
pub fn report_text(r: &Vec<UnusedDeps>, names: &Vec<String>) -> (out: Vec<String>)
    requires
        forall|i: int| 0 <= i < r@.len() ==> (#[trigger] r@[i]).pkg < names@.len(),
    ensures
        views(out@) == report_lines(r@, views(names@)),
{
    let ghost nv = views(names@);
    let mut out: Vec<String> = Vec::new();
    let mut any = false;
    let mut i: usize = 0;
    out.push(String::from_str("unused dependencies:"));
    assert(views(out@) =~= seq!["unused dependencies:"@] + entries_lines(r@, nv, 0));
    while i < r.len()
        invariant
            nv == views(names@),
            i <= r@.len(),
            forall|k: int| 0 <= k < r@.len() ==> (#[trigger] r@[k]).pkg < names@.len(),
            any == exists|k: int| 0 <= k < i && (r@[k].normal_dev@.len() > 0 || r@[k].build@.len() > 0),
            views(out@) == seq!["unused dependencies:"@] + entries_lines(r@, nv, i as int),
        decreases r.len() - i,
    {
        let e = &r[i];
        let ghost before = views(out@);
        if e.has_unused() {
            any = true;
            let name = &names[e.pkg];
            out.push(concat3("`", name.as_str(), "`"));
            let (edge, joint) = if e.build.len() == 0 { (" ", "└") } else { ("│", "├") };
            push_branch(&mut out, &e.normal_dev, edge, joint, "(dev-)");
            push_branch(&mut out, &e.build, " ", "└", "build-");
            assert(nv[e.pkg as int] == name@);
            assert(views(out@) =~= before + entry_lines(nv[e.pkg as int], views(e.normal_dev@), views(e.build@)));
        } else {
            assert(views(out@) =~= before + Seq::<Seq<char>>::empty());
        }
        assert(views(out@) =~= seq!["unused dependencies:"@] + entries_lines(r@, nv, i + 1));
        i = i + 1;
    }
    if any {
        out
    } else {
        let mut none: Vec<String> = Vec::new();
        none.push(String::from_str("All deps seem to have been used."));
        assert(views(none@) =~= seq!["All deps seem to have been used."@]);
        none
    }
}

} // verus!
