//! Invocation records: what a compiler invocation says about the unit it builds.
use vstd::prelude::*;
use vstd::string::*;
use crate::text::{split_pair, split_pair_exec, str_eq};

verus! {

/// The views of a sequence of strings.
pub open spec fn views(v: Seq<String>) -> Seq<Seq<char>> {
    v.map_values(|s: String| s@)
}

/// The views of a sequence of string pairs.
pub open spec fn pair_views(v: Seq<(String, String)>) -> Seq<(Seq<char>, Seq<char>)> {
    v.map_values(|p: (String, String)| (p.0@, p.1@))
}

/// What a scan of compiler arguments has gathered so far.
pub struct ArgsScan {
    pub crate_name: Option<Seq<char>>,
    pub crate_type: Option<Seq<char>>,
    pub extra_filename: Option<Seq<char>>,
    pub cap_lints_allow: bool,
    pub out_dir: Option<Seq<char>>,
    pub externs: Seq<(Seq<char>, Seq<char>)>,
    pub invalid_extern: Option<Seq<char>>,
}

/// The state of a scan before any argument.
pub open spec fn empty_scan() -> ArgsScan {
    ArgsScan {
        crate_name: None,
        crate_type: None,
        extra_filename: None,
        cap_lints_allow: false,
        out_dir: None,
        externs: Seq::empty(),
        invalid_extern: None,
    }
}

/// Scans the arguments from position `i` on, starting from `m`.
///
/// A flag that takes a value consumes the next argument. A flag with no argument
/// after it ends the scan. A `--extern` value without `=` stops the scan and is
/// kept as invalid.
pub open spec fn scan(args: Seq<Seq<char>>, i: int, m: ArgsScan) -> ArgsScan
    decreases args.len() - i,
{
    if i < 0 || i >= args.len() || m.invalid_extern is Some {
        m
    } else if i + 1 >= args.len() {
        m
    } else {
        let v = args[i];
        let nx = args[i + 1];
        if v == "--extern"@ {
            match split_pair(nx) {
                Some(p) => scan(args, i + 2, ArgsScan { externs: m.externs.push(p), ..m }),
                None => ArgsScan { invalid_extern: Some(nx), ..m },
            }
        } else if v == "--crate-name"@ {
            scan(args, i + 2, ArgsScan { crate_name: Some(nx), ..m })
        } else if v == "--crate-type"@ {
            scan(args, i + 2, ArgsScan { crate_type: Some(nx), ..m })
        } else if v == "--cap-lints"@ {
            scan(args, i + 2, ArgsScan { cap_lints_allow: m.cap_lints_allow || nx == "allow"@, ..m })
        } else if v == "--out-dir"@ {
            scan(args, i + 2, ArgsScan { out_dir: Some(nx), ..m })
        } else if v == "-C"@ {
            match split_pair(nx) {
                Some(p) => if p.0 == "extra-filename"@ {
                    scan(args, i + 2, ArgsScan { extra_filename: Some(p.1), ..m })
                } else {
                    scan(args, i + 2, m)
                },
                None => scan(args, i + 2, m),
            }
        } else {
            scan(args, i + 1, m)
        }
    }
}

/// What one compiler invocation of a unit says about it.
#[derive(Clone, Debug)]
pub struct CmdInfo {
    /// The package that the unit belongs to.
    pub pkg: usize,
    /// Whether the unit is a build script.
    pub custom_build: bool,
    pub crate_name: String,
    pub crate_type: String,
    pub extra_filename: String,
    /// Whether lints are capped to `allow`.
    pub cap_lints_allow: bool,
    pub out_dir: String,
    /// The `(link name, artifact path)` pairs passed with `--extern`.
    pub externs: Vec<(String, String)>,
}

/// Why an invocation could not be read.
#[derive(Clone, Debug, PartialEq, Eq)]
pub enum CmdInfoError {
    /// A `--extern` value without `=`.
    InvalidExtern(String),
    MissingCrateName,
    MissingExtraFilename,
    MissingOutDir,
}

/// The gathered state as the scan model sees it.
pub open spec fn scan_model(
    crate_name: Option<String>,
    crate_type: Option<String>,
    extra_filename: Option<String>,
    cap_lints_allow: bool,
    out_dir: Option<String>,
    externs: Seq<(String, String)>,
) -> ArgsScan {
    ArgsScan {
        crate_name: match crate_name { Some(s) => Some(s@), None => None },
        crate_type: match crate_type { Some(s) => Some(s@), None => None },
        extra_filename: match extra_filename { Some(s) => Some(s@), None => None },
        cap_lints_allow,
        out_dir: match out_dir { Some(s) => Some(s@), None => None },
        externs: pair_views(externs),
        invalid_extern: None,
    }
}

/// The outcome that `cmd_info` owes for the arguments `args`.
pub open spec fn cmd_info_ok(pkg: usize, custom_build: bool, args: Seq<Seq<char>>, c: CmdInfo) -> bool {
    let m = scan(args, 0, empty_scan());
    &&& m.invalid_extern is None
    &&& m.crate_name == Some(c.crate_name@)
    &&& m.extra_filename == Some(c.extra_filename@)
    &&& m.out_dir == Some(c.out_dir@)
    &&& c.crate_type@ == (match m.crate_type { Some(t) => t, None => "bin"@ })
    &&& c.cap_lints_allow == m.cap_lints_allow
    &&& pair_views(c.externs@) == m.externs
    &&& c.pkg == pkg
    &&& c.custom_build == custom_build
}

/// Reads the record of a unit from the arguments of its compiler invocation.
pub fn cmd_info(pkg: usize, custom_build: bool, args: &Vec<String>) -> (r: Result<CmdInfo, CmdInfoError>)
    ensures
        ({
            let m = scan(views(args@), 0, empty_scan());
            match r {
                Ok(c) => cmd_info_ok(pkg, custom_build, views(args@), c),
                Err(CmdInfoError::InvalidExtern(a)) => m.invalid_extern == Some(a@),
                Err(CmdInfoError::MissingCrateName) => m.invalid_extern is None && m.crate_name is None,
                Err(CmdInfoError::MissingExtraFilename) => m.invalid_extern is None
                    && m.crate_name is Some && m.extra_filename is None,
                Err(CmdInfoError::MissingOutDir) => m.invalid_extern is None && m.crate_name is Some
                    && m.extra_filename is Some && m.out_dir is None,
            }
        }),
{
    let ghost a = views(args@);
    let mut crate_name: Option<String> = None;
    let mut crate_type: Option<String> = None;
    let mut extra_filename: Option<String> = None;
    let mut cap_lints_allow = false;
    let mut out_dir: Option<String> = None;
    let mut externs: Vec<(String, String)> = Vec::new();
    let n = args.len();
    let mut i: usize = 0;
    assert(pair_views(externs@) == Seq::<(Seq<char>, Seq<char>)>::empty());
    while i < n && i + 1 < n
        invariant
            n == args@.len(),
            a == views(args@),
            a.len() == n,
            i <= n,
            scan(a, 0, empty_scan()) == scan(a, i as int,
                scan_model(crate_name, crate_type, extra_filename, cap_lints_allow, out_dir, externs@)),
        decreases n - i,
    {
        let ghost m = scan_model(crate_name, crate_type, extra_filename, cap_lints_allow, out_dir, externs@);
        let v = &args[i];
        let nx = &args[i + 1];
        assert(a[i as int] == v@ && a[i + 1] == nx@);
        if str_eq(v.as_str(), "--extern") {
            match split_pair_exec(nx.as_str()) {
                Some(p) => {
                    externs.push(p);
                    proof {
                        assert(pair_views(externs@) == m.externs.push((p.0@, p.1@)));
                    }
                },
                None => {
                    return Err(CmdInfoError::InvalidExtern(nx.clone()));
                },
            }
        } else if str_eq(v.as_str(), "--crate-name") {
            crate_name = Some(nx.clone());
        } else if str_eq(v.as_str(), "--crate-type") {
            crate_type = Some(nx.clone());
        } else if str_eq(v.as_str(), "--cap-lints") {
            if str_eq(nx.as_str(), "allow") {
                cap_lints_allow = true;
            }
        } else if str_eq(v.as_str(), "--out-dir") {
            out_dir = Some(nx.clone());
        } else if str_eq(v.as_str(), "-C") {
            match split_pair_exec(nx.as_str()) {
                Some(p) => {
                    if str_eq(p.0.as_str(), "extra-filename") {
                        extra_filename = Some(p.1);
                    }
                },
                None => {},
            }
        } else {
            i = i + 1;
            continue;
        }
        i = i + 2;
    }
    let ghost fin = scan_model(crate_name, crate_type, extra_filename, cap_lints_allow, out_dir, externs@);
    assert(scan(a, i as int, fin) == fin);
    let crate_name = match crate_name {
        Some(s) => s,
        None => return Err(CmdInfoError::MissingCrateName),
    };
    let crate_type = match crate_type {
        Some(s) => s,
        None => String::from_str("bin"),
    };
    let extra_filename = match extra_filename {
        Some(s) => s,
        None => return Err(CmdInfoError::MissingExtraFilename),
    };
    let out_dir = match out_dir {
        Some(s) => s,
        None => return Err(CmdInfoError::MissingOutDir),
    };
    Ok(CmdInfo {
        pkg,
        custom_build,
        crate_name,
        crate_type,
        extra_filename,
        cap_lints_allow,
        out_dir,
        externs,
    })
}

/// Whether a unit of crate type `t` writes its analysis under a `lib` prefix.
pub open spec fn is_lib_kind(t: Seq<char>) -> bool {
    (t.len() >= 3 && t.subrange(t.len() - 3, t.len() as int) == "lib"@) || t == "proc-macro"@
}

/// The file name of the usage analysis that the compiler writes for a unit.
pub open spec fn analysis_file_name(c: CmdInfo) -> Seq<char> {
    (if is_lib_kind(c.crate_type@) { "lib"@ } else { Seq::empty() }) + c.crate_name@
        + c.extra_filename@ + ".json"@
}

/// The directory, under a unit's output directory, that holds usage analyses.
pub const SAVE_ANALYSIS_DIR: &'static str = "save-analysis";

impl CmdInfo {
    /// The file name of this unit's usage analysis, inside
    /// `SAVE_ANALYSIS_DIR` of its output directory.
    pub fn save_analysis_file_name(&self) -> (r: String)
        ensures
            r@ == analysis_file_name(*self),
    {
        let t = self.crate_type.as_str();
        let n = t.unicode_len();
        let ends_lib = n >= 3 && str_eq(t.substring_char(n - 3, n), "lib");
        let is_lib = ends_lib || str_eq(t, "proc-macro");
        let mut name = if is_lib {
            String::from_str("lib")
        } else {
            String::new()
        };
        name.append(self.crate_name.as_str());
        name.append(self.extra_filename.as_str());
        name.append(".json");
        name
    }
}

/// What the interceptor gathers during a build.
pub struct ExecData {
    /// The build tool executable handed on to each invocation, if one was found.
    pub cargo_exe: Option<String>,
    pub supports_color: bool,
    /// The records of the workspace units compiled so far.
    pub relevant_cmd_infos: Vec<CmdInfo>,
}

/// What the interceptor decides for one invocation.
pub struct Observation {
    /// Lint capping disagrees with whether the unit is local to the workspace.
    pub lint_mismatch: bool,
    /// Arguments to add to the invocation.
    pub extra_args: Vec<String>,
}

impl ExecData {
    /// Starts with no records.
    pub fn new(supports_color: bool, cargo_exe: Option<String>) -> (r: ExecData)
        ensures
            r.supports_color == supports_color,
            r.cargo_exe == cargo_exe,
            r.relevant_cmd_infos@.len() == 0,
    {
        ExecData { cargo_exe, supports_color, relevant_cmd_infos: Vec::new() }
    }

    /// Takes in the record of one invocation.
    ///
    /// The records of workspace units are kept, and for them a usage analysis is
    /// requested through `extra_args`.
    pub fn observe(&mut self, info: CmdInfo, is_path: bool) -> (r: Observation)
        ensures
            final(self).relevant_cmd_infos@ == (if is_path {
                old(self).relevant_cmd_infos@.push(info)
            } else {
                old(self).relevant_cmd_infos@
            }),
            final(self).cargo_exe == old(self).cargo_exe,
            final(self).supports_color == old(self).supports_color,
            r.lint_mismatch == (!info.cap_lints_allow != is_path),
            views(r.extra_args@) == (if is_path {
                seq!["-Z"@, "save-analysis"@]
            } else {
                Seq::<Seq<char>>::empty()
            }),
    {
        let lint_mismatch = !info.cap_lints_allow != is_path;
        let mut extra_args: Vec<String> = Vec::new();
        if is_path {
            self.relevant_cmd_infos.push(info);
            extra_args.push(String::from_str("-Z"));
            extra_args.push(String::from_str("save-analysis"));
        }
        assert(views(extra_args@) =~= (if is_path {
            seq!["-Z"@, "save-analysis"@]
        } else {
            Seq::<Seq<char>>::empty()
        }));
        Observation { lint_mismatch, extra_args }
    }
}

} // verus!
