use cargo_udeps::invocation::{cmd_info, CmdInfo, CmdInfoError, ExecData, SAVE_ANALYSIS_DIR};
use cargo_udeps::names::{DepEdge, DependencyNames, LibInfo, NamesError};
use cargo_udeps::render::report_text;
use cargo_udeps::report::{any_unused, find_unused, UnusedDeps};
use cargo_udeps::text::{split_pair_exec, str_eq, str_lt};
use cargo_udeps::usage::{correlate, UnitUsage};
use cargo_udeps::StrErr;

fn strs(v: &[&str]) -> Vec<String> {
    v.iter().map(|s| s.to_string()).collect()
}

fn edge(manifest: &str, link: &str, lib: &str, is_build: bool) -> DepEdge {
    DepEdge {
        manifest_name: manifest.to_string(),
        is_build,
        lib: Some(LibInfo { link_name: link.to_string(), lib_name: lib.to_string() }),
    }
}

fn info(pkg: usize, custom_build: bool, links: &[&str]) -> CmdInfo {
    CmdInfo {
        pkg,
        custom_build,
        crate_name: "p".to_string(),
        crate_type: "lib".to_string(),
        extra_filename: "-0".to_string(),
        cap_lints_allow: false,
        out_dir: "/out".to_string(),
        externs: links.iter().map(|l| (l.to_string(), format!("/deps/lib{}.rmeta", l))).collect(),
    }
}

fn unit(pkg: usize, custom_build: bool, links: &[&str], used: &[&str]) -> UnitUsage {
    UnitUsage { info: info(pkg, custom_build, links), external_crates: strs(used) }
}

fn index_of(pkg: usize, edges: Vec<DepEdge>) -> Vec<(usize, DependencyNames)> {
    let names = DependencyNames::new(Some(("p".to_string(), "p".to_string())), &edges).unwrap();
    vec![(pkg, names)]
}

#[test]
fn cmd_info_reads_all_fields() {
    let args = strs(&[
        "--crate-name", "foo", "--edition=2018", "src/lib.rs", "--crate-type", "lib",
        "-C", "extra-filename=-abc", "--out-dir", "/t/deps", "--cap-lints", "allow",
        "--extern", "a=/t/liba.rmeta", "--extern", "b=/t/libb.rlib=x",
    ]);
    let c = cmd_info(3, true, &args).unwrap();
    assert_eq!(c.pkg, 3);
    assert!(c.custom_build);
    assert_eq!(c.crate_name, "foo");
    assert_eq!(c.crate_type, "lib");
    assert_eq!(c.extra_filename, "-abc");
    assert_eq!(c.out_dir, "/t/deps");
    assert!(c.cap_lints_allow);
    assert_eq!(
        c.externs,
        vec![
            ("a".to_string(), "/t/liba.rmeta".to_string()),
            ("b".to_string(), "/t/libb.rlib".to_string()),
        ]
    );
}

#[test]
fn cmd_info_defaults_crate_type_to_bin() {
    let args = strs(&["--crate-name", "foo", "-C", "extra-filename=-1", "--out-dir", "o", "--cap-lints", "warn"]);
    let c = cmd_info(0, false, &args).unwrap();
    assert_eq!(c.crate_type, "bin");
    assert!(!c.cap_lints_allow);
    assert!(c.externs.is_empty());
}

#[test]
fn cmd_info_missing_fields() {
    let no_name = strs(&["-C", "extra-filename=-1", "--out-dir", "o"]);
    assert_eq!(cmd_info(0, false, &no_name).unwrap_err(), CmdInfoError::MissingCrateName);
    let no_extra = strs(&["--crate-name", "foo", "-C", "opt-level=3", "--out-dir", "o"]);
    assert_eq!(cmd_info(0, false, &no_extra).unwrap_err(), CmdInfoError::MissingExtraFilename);
    let no_out = strs(&["--crate-name", "foo", "-C", "extra-filename=-1"]);
    assert_eq!(cmd_info(0, false, &no_out).unwrap_err(), CmdInfoError::MissingOutDir);
    let dangling = strs(&["--crate-name", "foo", "-C", "extra-filename=-1", "--out-dir"]);
    assert_eq!(cmd_info(0, false, &dangling).unwrap_err(), CmdInfoError::MissingOutDir);
}

#[test]
fn cmd_info_rejects_extern_without_path() {
    let args = strs(&["--crate-name", "foo", "--extern", "proc_macro", "--out-dir", "o"]);
    assert_eq!(
        cmd_info(0, false, &args).unwrap_err(),
        CmdInfoError::InvalidExtern("proc_macro".to_string())
    );
}

#[test]
fn save_analysis_file_names() {
    let mut c = info(0, false, &[]);
    c.crate_name = "foo".to_string();
    c.extra_filename = "-abc".to_string();
    assert_eq!(c.save_analysis_file_name(), "libfoo-abc.json");
    c.crate_type = "rlib".to_string();
    assert_eq!(c.save_analysis_file_name(), "libfoo-abc.json");
    c.crate_type = "proc-macro".to_string();
    assert_eq!(c.save_analysis_file_name(), "libfoo-abc.json");
    c.crate_type = "bin".to_string();
    assert_eq!(c.save_analysis_file_name(), "foo-abc.json");
    assert_eq!(SAVE_ANALYSIS_DIR, "save-analysis");
}

#[test]
fn exec_data_keeps_workspace_units_only() {
    let mut d = ExecData::new(true, Some("/bin/cargo".to_string()));
    let local = info(1, false, &[]);
    let o = d.observe(local, true);
    assert!(!o.lint_mismatch);
    assert_eq!(o.extra_args, strs(&["-Z", "save-analysis"]));
    let mut remote = info(2, false, &[]);
    remote.cap_lints_allow = true;
    let o = d.observe(remote, false);
    assert!(!o.lint_mismatch);
    assert!(o.extra_args.is_empty());
    let o = d.observe(info(3, false, &[]), false);
    assert!(o.lint_mismatch);
    assert_eq!(d.relevant_cmd_infos.len(), 1);
    assert_eq!(d.relevant_cmd_infos[0].pkg, 1);
    assert_eq!(d.cargo_exe, Some("/bin/cargo".to_string()));
    assert!(d.supports_color);
}

#[test]
fn text_helpers() {
    assert!(str_eq("abc", "abc"));
    assert!(!str_eq("abc", "abd"));
    assert!(str_lt("abc", "abd"));
    assert!(str_lt("ab", "abc"));
    assert!(!str_lt("abc", "ab"));
    assert!(!str_lt("abc", "abc"));
    assert_eq!(split_pair_exec("a=b=c"), Some(("a".to_string(), "b".to_string())));
    assert_eq!(split_pair_exec("a="), Some(("a".to_string(), "".to_string())));
    assert_eq!(split_pair_exec("ab"), None);
}

#[test]
fn index_snake_cases_library_names() {
    let edges = vec![edge("foo-bar", "foo_bar", "foo-bar", false), edge("cc", "cc", "cc", true)];
    let d = DependencyNames::new(None, &edges).unwrap();
    assert_eq!(
        d.normal_dev.by_lib_true_snakecased_name,
        vec![("foo_bar".to_string(), "foo-bar".to_string())]
    );
    assert_eq!(
        d.normal_dev.by_extern_crate_name,
        vec![("foo_bar".to_string(), "foo-bar".to_string())]
    );
    assert_eq!(d.build.by_lib_true_snakecased_name, vec![("cc".to_string(), "cc".to_string())]);
    assert!(d.own_lib.is_none());
}

#[test]
fn index_rejects_dependency_without_library() {
    let edges = vec![
        edge("a", "a", "a", false),
        DepEdge { manifest_name: "tool".to_string(), is_build: false, lib: None },
    ];
    assert!(matches!(DependencyNames::new(None, &edges), Err(NamesError::NoLibTarget(n)) if n == "tool"));
}

#[test]
fn index_lists_ambiguous_names() {
    let edges = vec![
        edge("log", "log", "log", false),
        edge("log2", "log2", "log", false),
        edge("a", "a", "a", false),
    ];
    let d = DependencyNames::new(None, &edges).unwrap();
    let mut amb = d.normal_dev.ambiguous_names();
    amb.sort();
    assert_eq!(
        amb,
        vec![
            ("log".to_string(), "log".to_string()),
            ("log2".to_string(), "log".to_string()),
        ]
    );
    assert!(d.build.ambiguous_names().is_empty());
}

#[test]
fn scenario_unused_dependency_reported() {
    let index = index_of(0, vec![edge("a", "a", "a", false), edge("b", "b", "b", false)]);
    let units = vec![unit(0, false, &["a", "b"], &["a", "std"])];
    let r = find_unused(&index, &units);
    assert_eq!(r.len(), 1);
    assert_eq!(r[0].pkg, 0);
    assert_eq!(r[0].normal_dev, strs(&["b"]));
    assert!(r[0].build.is_empty());
    assert!(any_unused(&r));
}

#[test]
fn scenario_all_used_after_removal() {
    let index = index_of(0, vec![edge("a", "a", "a", false)]);
    let units = vec![unit(0, false, &["a"], &["a", "std"])];
    let r = find_unused(&index, &units);
    assert!(!any_unused(&r));
    assert!(!r[0].has_unused());
}

#[test]
fn scenario_build_script_dependency_used() {
    let index = index_of(0, vec![edge("c", "c", "c", true), edge("a", "a", "a", false)]);
    let units = vec![unit(0, true, &["c"], &["c"]), unit(0, false, &["a"], &["a"])];
    let usage = correlate(&index, &units);
    assert_eq!(usage.used_build, vec![(0, "c".to_string())]);
    let r = find_unused(&index, &units);
    assert!(r[0].build.is_empty());
    assert!(!any_unused(&r));
}

#[test]
fn renamed_dependency_is_used() {
    let index = index_of(0, vec![edge("x", "y", "real-lib", false)]);
    let units = vec![unit(0, false, &["y"], &["real_lib"])];
    let r = find_unused(&index, &units);
    assert!(r[0].normal_dev.is_empty());
}

#[test]
fn ambiguous_libraries_both_used() {
    let index = index_of(0, vec![edge("log", "log", "log", false), edge("log2", "log2", "log", false)]);
    let units = vec![unit(0, false, &["log", "log2"], &["log"])];
    let r = find_unused(&index, &units);
    assert!(r[0].normal_dev.is_empty());
}

#[test]
fn build_category_is_independent() {
    let index = index_of(0, vec![edge("z", "z", "z", false), edge("z", "z", "z", true)]);
    let units = vec![unit(0, false, &["z"], &["z"]), unit(0, true, &["z"], &[])];
    let r = find_unused(&index, &units);
    assert!(r[0].normal_dev.is_empty());
    assert_eq!(r[0].build, strs(&["z"]));
}

#[test]
fn referenced_library_never_unused() {
    let index = index_of(0, vec![edge("a", "a", "a", false), edge("b", "b", "b", false), edge("c", "c", "c", false)]);
    let units = vec![
        unit(0, false, &["a", "b", "c"], &["b"]),
        unit(0, false, &["a", "b", "c"], &["c"]),
    ];
    let r = find_unused(&index, &units);
    assert_eq!(r[0].normal_dev, strs(&["a"]));
}

#[test]
fn repeated_runs_agree() {
    let index = index_of(0, vec![edge("q", "q", "q", false), edge("b", "b", "b", false), edge("m", "m", "m", false)]);
    let units = vec![unit(0, false, &["q", "b", "m"], &[])];
    let r1 = find_unused(&index, &units);
    let r2 = find_unused(&index, &units);
    assert_eq!(r1[0].normal_dev, strs(&["b", "m", "q"]));
    assert_eq!(r1[0].normal_dev, r2[0].normal_dev);
    assert_eq!(r1[0].build, r2[0].build);
}

#[test]
fn self_references_and_unknown_links_are_ignored() {
    let index = index_of(4, vec![edge("a", "a", "a", false)]);
    let units = vec![
        unit(4, false, &["p", "a", "core"], &["p", "a"]),
        unit(9, false, &["a"], &[]),
    ];
    let usage = correlate(&index, &units);
    assert_eq!(usage.normal_dev, vec![(4, "a".to_string())]);
    assert_eq!(usage.unresolved, vec![(4, "core".to_string())]);
    let r = find_unused(&index, &units);
    assert_eq!(r.len(), 1);
    assert_eq!(r[0].pkg, 4);
    assert!(!any_unused(&r));
}

#[test]
fn unused_entries_per_package() {
    let e = UnusedDeps { pkg: 1, normal_dev: vec![], build: strs(&["x"]) };
    assert!(e.has_unused());
}

#[test]
fn str_err_holds_message() {
    let e = StrErr::new("boom".to_string());
    assert_eq!(e.message(), "boom");
}

#[test]
fn report_text_lists_unused_dependency() {
    let index = index_of(0, vec![edge("a", "a", "a", false), edge("b", "b", "b", false)]);
    let units = vec![unit(0, false, &["a", "b"], &["a"])];
    let r = find_unused(&index, &units);
    let text = report_text(&r, &strs(&["P 0.1.0 (path+file:///p)"]));
    assert_eq!(
        text,
        strs(&[
            "unused dependencies:",
            "`P 0.1.0 (path+file:///p)`",
            "└─── (dev-)dependencies",
            "     └─── \"b\"",
        ])
    );
}

#[test]
fn report_text_all_used() {
    let index = index_of(0, vec![edge("a", "a", "a", false)]);
    let units = vec![unit(0, false, &["a"], &["a"])];
    let r = find_unused(&index, &units);
    assert_eq!(report_text(&r, &strs(&["P"])), strs(&["All deps seem to have been used."]));
}

#[test]
fn report_text_both_categories() {
    let r = vec![
        UnusedDeps { pkg: 1, normal_dev: strs(&["x", "y"]), build: strs(&["cc"]) },
        UnusedDeps { pkg: 0, normal_dev: vec![], build: vec![] },
    ];
    assert_eq!(
        report_text(&r, &strs(&["A", "B"])),
        strs(&[
            "unused dependencies:",
            "`B`",
            "├─── (dev-)dependencies",
            "│    ├─── \"x\"",
            "│    └─── \"y\"",
            "└─── build-dependencies",
            "     └─── \"cc\"",
        ])
    );
}
