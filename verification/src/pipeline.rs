//! The build pipeline: the choice between the legacy descriptor and a
//! derived command line, hardware source collection, and the three-stage
//! synthesis command. The container invocation itself goes through the
//! backend adapter.

use vstd::prelude::*;

verus! {

use vstd::seq_lib::group_seq_properties;
use crate::errors::Error;
use crate::project::FpgaConfig;
use crate::text::ext_of_path;
use crate::text::path_extension;
use crate::text::push_owned;
use crate::text::push_str;
use crate::text::starts_with_seq;
use crate::text::str_starts_with;
use crate::text::str_eq;

broadcast use crate::text::group_vec_string_view;

/// The hardware build parameters after defaulting: unlike the
/// configuration file's section, nothing here is optional.
#[derive(Debug, Clone, PartialEq)]
pub struct BuildConfig {
    pub device: String,
    pub package: String,
    pub top: String,
    pub pcf: String,
    pub includes: Vec<String>,
}

/// How the hardware stage runs: delegated to the legacy build descriptor,
/// or derived from configuration and discovered sources.
#[derive(Debug, Clone, PartialEq)]
pub enum BuildStrategy {
    /// A legacy descriptor exists and no structured configuration does: its
    /// own build procedure runs unchanged.
    Legacy,
    /// The command line is derived from these parameters.
    Derived(BuildConfig),
}

/// The derived parameters agree with the configuration section, each
/// absent value at its documented default; the pin-constraint file
/// defaults to the scaffolded one.
pub open spec fn derived_matches(cfg: BuildConfig, fpga: Option<FpgaConfig>) -> bool {
    &&& cfg.device@ == (match fpga {
        Some(f) => f.device@,
        None => "up5k"@,
    })
    &&& cfg.package@ == (match fpga {
        Some(f) => f.package@,
        None => "sg48"@,
    })
    &&& cfg.top@ == (match fpga {
        Some(f) => f.top@,
        None => "top"@,
    })
    &&& cfg.pcf@ == (match fpga {
        Some(f) => match f.pcf {
            Some(p) => p@,
            None => "fpga/project.pcf"@,
        },
        None => "fpga/project.pcf"@,
    })
    &&& cfg.includes.deep_view() == (match fpga {
        Some(f) => f.includes.deep_view(),
        None => Seq::<Seq<char>>::empty(),
    })
}

/// Derives the hardware build parameters from the configuration section,
/// or entirely from defaults when none exists.
pub fn build_config_of(fpga: Option<FpgaConfig>) -> (r: BuildConfig)
    ensures
        derived_matches(r, fpga),
{
    match fpga {
        Some(f) => {
            let pcf = match f.pcf {
                Some(p) => p,
                None => "fpga/project.pcf".to_owned(),
            };
            BuildConfig {
                device: f.device,
                package: f.package,
                top: f.top,
                pcf,
                includes: f.includes,
            }
        },
        None => {
            let empty: Vec<String> = Vec::new();
            proof {
                assert(empty.deep_view() =~= Seq::<Seq<char>>::empty());
            }
            BuildConfig {
                device: "up5k".to_owned(),
                package: "sg48".to_owned(),
                top: "top".to_owned(),
                pcf: "fpga/project.pcf".to_owned(),
                includes: empty,
            }
        },
    }
}

/// The selection policy: the legacy descriptor's own build procedure runs
/// when it exists and no structured configuration is present; a present
/// configuration always derives the command. With neither descriptor nor
/// configuration there is no way to build, and nothing is chosen.
pub fn choose_strategy(has_legacy_descriptor: bool, fpga: Option<FpgaConfig>) -> (r: Option<
    BuildStrategy,
>)
    ensures
        match r {
            Some(BuildStrategy::Legacy) => has_legacy_descriptor && fpga is None,
            Some(BuildStrategy::Derived(cfg)) => fpga matches Some(f) && derived_matches(
                cfg,
                Some(f),
            ),
            None => !has_legacy_descriptor && fpga is None,
        },
{
    match fpga {
        None => {
            if has_legacy_descriptor {
                Some(BuildStrategy::Legacy)
            } else {
                None
            }
        },
        Some(f) => Some(BuildStrategy::Derived(build_config_of(Some(f)))),
    }
}

/// A path made relative to the project root: the root prefix and its
/// separator are stripped; a path not under the root is kept as given.
pub open spec fn relativize(root: Seq<char>, p: Seq<char>) -> Seq<char> {
    if starts_with_seq(p, root.push('/')) {
        p.subrange(root.len() as int + 1, p.len() as int)
    } else {
        p
    }
}

/// Makes one path root-relative.
pub fn str_relativize(root: &str, p: &str) -> (r: String)
    ensures
        r@ == relativize(root@, p@),
{
    let n = p.unicode_len();
    let m = root.unicode_len();
    let mut prefix = root.to_owned();
    prefix.append("/");
    proof {
        reveal_strlit("/");
        assert(prefix@ =~= root@.push('/'));
    }
    if str_starts_with(p, prefix.as_str()) {
        let r = p.substring_char(m + 1, n);
        r.to_owned()
    } else {
        p.to_owned()
    }
}

/// Every found path, root-relative, in discovery order.
pub open spec fn rel_all(root: Seq<char>, files: Seq<Seq<char>>) -> Seq<Seq<char>> {
    files.map_values(|p: Seq<char>| relativize(root, p))
}

/// The paths with later duplicates dropped: each path keeps its first
/// occurrence.
pub open spec fn dedup_of(s: Seq<Seq<char>>) -> Seq<Seq<char>>
    decreases s.len(),
{
    if s.len() == 0 {
        s
    } else {
        let rest = dedup_of(s.drop_last());
        if rest.contains(s.last()) {
            rest
        } else {
            rest.push(s.last())
        }
    }
}

/// Deduplication is sound: the result is duplicate-free and holds exactly
/// the paths it was given. Together with collect_sources' exact contract —
/// the result is a function of the inputs alone — this is the discovery
/// guarantee: duplicate-free, root-relative, and stable across repeated
/// calls on unchanged inputs.
pub proof fn lemma_dedup_sound(s: Seq<Seq<char>>)
    ensures
        dedup_of(s).no_duplicates(),
        forall|x: Seq<char>| dedup_of(s).contains(x) <==> s.contains(x),
        dedup_of(s).len() == 0 <==> s.len() == 0,
    decreases s.len(),
{
    broadcast use group_seq_properties;

    if s.len() == 0 {
    } else {
        let prefix = s.drop_last();
        lemma_dedup_sound(prefix);
        let rest = dedup_of(prefix);
        assert forall|x: Seq<char>| dedup_of(s).contains(x) <==> s.contains(x) by {
            assert(s =~= prefix.push(s.last()));
            if dedup_of(s).contains(x) {
                if rest.contains(x) {
                    assert(prefix.contains(x));
                    let i = choose|i: int| 0 <= i < prefix.len() && prefix[i] == x;
                    assert(s[i] == x);
                } else {
                    assert(x == s.last());
                    assert(s[s.len() - 1] == x);
                }
            }
            if s.contains(x) {
                let i = choose|i: int| 0 <= i < s.len() && s[i] == x;
                if i < s.len() - 1 {
                    assert(prefix[i] == x);
                    assert(prefix.contains(x));
                    assert(rest.contains(x));
                    if !rest.contains(s.last()) {
                        assert(rest.push(s.last()).contains(x)) by {
                            let j = choose|j: int| 0 <= j < rest.len() && rest[j] == x;
                            assert(rest.push(s.last())[j] == x);
                        }
                    }
                } else {
                    if rest.contains(s.last()) {
                    } else {
                        assert(rest.push(s.last()).last() == x);
                    }
                }
            }
        }
        if !rest.contains(s.last()) {
            assert(dedup_of(s).no_duplicates()) by {
                assert forall|i: int, j: int|
                    0 <= i < j < dedup_of(s).len() implies dedup_of(s)[i] != dedup_of(s)[j] by {
                    if j < rest.len() {
                    } else {
                        assert(dedup_of(s)[i] == rest[i]);
                        assert(dedup_of(s)[j] == s.last());
                        if rest[i] == s.last() {
                            assert(rest.contains(s.last()));
                        }
                    }
                }
            }
        }
    }
}

fn vec_contains_str(v: &Vec<String>, s: &str) -> (r: bool)
    ensures
        r == v.deep_view().contains(s@),
{
    let n = v.len();
    let mut i: usize = 0;
    while i < n
        invariant
            n == v@.len(),
            0 <= i <= n,
            forall|k: int| 0 <= k < i ==> v.deep_view()[k] != s@,
        decreases n - i,
    {
        if str_eq(v[i].as_str(), s) {
            proof {
                assert(v.deep_view()[i as int] == s@);
            }
            return true;
        }
        i = i + 1;
    }
    proof {
        if v.deep_view().contains(s@) {
            let k = choose|k: int| 0 <= k < v.deep_view().len() && v.deep_view()[k] == s@;
            assert(v.deep_view()[k] == s@);
        }
    }
    false
}

/// Collects the hardware sources from the found files, in discovery
/// order: each path made root-relative, duplicates dropped. An empty
/// result is the `NoSourcesFound` error.
pub fn collect_sources(root: &str, found: &Vec<String>) -> (r: Result<Vec<String>, Error>)
    ensures
        match r {
            Ok(ss) => {
                &&& ss.deep_view() == dedup_of(rel_all(root@, found.deep_view()))
                &&& found@.len() > 0
            },
            Err(e) => e == Error::NoSourcesFound && found@.len() == 0,
        },
{
    let n = found.len();
    let mut out: Vec<String> = Vec::new();
    let mut i: usize = 0;
    proof {
        assert(rel_all(root@, found.deep_view().subrange(0, 0)) =~= Seq::<Seq<char>>::empty());
        assert(out.deep_view() =~= Seq::<Seq<char>>::empty());
    }
    while i < n
        invariant
            n == found@.len(),
            0 <= i <= n,
            out.deep_view() == dedup_of(rel_all(root@, found.deep_view().subrange(0, i as int))),
        decreases n - i,
    {
        let ghost pre = rel_all(root@, found.deep_view().subrange(0, i as int));
        let ghost cur = rel_all(root@, found.deep_view().subrange(0, i + 1));
        proof {
            assert(cur.drop_last() =~= pre);
            assert(cur.last() == relativize(root@, found.deep_view()[i as int]));
        }
        let rel = str_relativize(root, found[i].as_str());
        if !vec_contains_str(&out, rel.as_str()) {
            push_owned(&mut out, rel);
        }
        i = i + 1;
    }
    proof {
        assert(found.deep_view().subrange(0, n as int) =~= found.deep_view());
    }
    if out.len() == 0 {
        proof {
            lemma_dedup_sound(rel_all(root@, found.deep_view()));
        }
        Err(Error::NoSourcesFound)
    } else {
        proof {
            lemma_dedup_sound(rel_all(root@, found.deep_view()));
        }
        Ok(out)
    }
}

/// The files whose extension is exactly `v`: the hardware description
/// sources among a directory listing.
pub open spec fn verilog_only(paths: Seq<Seq<char>>) -> Seq<Seq<char>>
    decreases paths.len(),
{
    if paths.len() == 0 {
        Seq::<Seq<char>>::empty()
    } else {
        let rest = verilog_only(paths.drop_last());
        if ext_of_path(paths.last()) == Some("v"@) {
            rest.push(paths.last())
        } else {
            rest
        }
    }
}

/// Keeps the hardware description files of a listing, in listing order.
pub fn filter_verilog(paths: &Vec<String>) -> (r: Vec<String>)
    ensures
        r.deep_view() == verilog_only(paths.deep_view()),
{
    let n = paths.len();
    let mut out: Vec<String> = Vec::new();
    let mut i: usize = 0;
    proof {
        assert(paths.deep_view().subrange(0, 0) =~= Seq::<Seq<char>>::empty());
        assert(out.deep_view() =~= Seq::<Seq<char>>::empty());
    }
    while i < n
        invariant
            n == paths@.len(),
            0 <= i <= n,
            out.deep_view() == verilog_only(paths.deep_view().subrange(0, i as int)),
        decreases n - i,
    {
        let ghost sub1 = paths.deep_view().subrange(0, i + 1);
        proof {
            assert(sub1.drop_last() =~= paths.deep_view().subrange(0, i as int));
            assert(sub1.last() == paths.deep_view()[i as int]);
        }
        let keep = match path_extension(paths[i].as_str()) {
            Some(e) => str_eq(e.as_str(), "v"),
            None => false,
        };
        if keep {
            push_owned(&mut out, paths[i].clone());
        }
        i = i + 1;
    }
    proof {
        assert(paths.deep_view().subrange(0, n as int) =~= paths.deep_view());
    }
    out
}

/// The files, each preceded by one space, in order.
pub open spec fn spaced(files: Seq<Seq<char>>) -> Seq<char>
    decreases files.len(),
{
    if files.len() == 0 {
        Seq::<char>::empty()
    } else {
        spaced(files.drop_last()) + " "@ + files.last()
    }
}

/// The three-stage hardware command: synthesize, place-and-route, pack.
/// It runs under `set -e`, so a non-zero exit at any stage aborts the
/// remaining stages, and each stage consumes its predecessor's declared
/// output file.
pub open spec fn hw_build_command_of(
    device: Seq<char>,
    package: Seq<char>,
    top: Seq<char>,
    pcf: Seq<char>,
    sources: Seq<Seq<char>>,
) -> Seq<char> {
    "set -e\ncd /workspace\necho \"Synthesizing with Yosys...\"\nyosys -q -p \"synth_ice40 -abc2 -relut -top "@
        + top + " -json fpga/top.json\""@ + spaced(sources)
        + "\necho \"Place and route with nextpnr...\"\nnextpnr-ice40 --"@ + device + " --package "@
        + package + " --json fpga/top.json --pcf "@ + pcf
        + " --asc fpga/top.asc\necho \"Generating bitstream...\"\nicepack fpga/top.asc fpga/top.bin\necho \"FPGA build complete: fpga/top.bin\"\n"@
}

/// Builds the three-stage hardware command from the derived parameters and
/// the collected sources.
pub fn hw_build_command(cfg: &BuildConfig, sources: &Vec<String>) -> (r: String)
    ensures
        r@ == hw_build_command_of(
            cfg.device@,
            cfg.package@,
            cfg.top@,
            cfg.pcf@,
            sources.deep_view(),
        ),
{
    let mut s =
        "set -e\ncd /workspace\necho \"Synthesizing with Yosys...\"\nyosys -q -p \"synth_ice40 -abc2 -relut -top ".to_owned();
    s.append(cfg.top.as_str());
    s.append(" -json fpga/top.json\"");
    let n = sources.len();
    let mut i: usize = 0;
    let ghost head = s@;
    proof {
        assert(sources.deep_view().subrange(0, 0) =~= Seq::<Seq<char>>::empty());
        assert(s@ =~= head + spaced(sources.deep_view().subrange(0, 0)));
    }
    while i < n
        invariant
            n == sources@.len(),
            0 <= i <= n,
            s@ == head + spaced(sources.deep_view().subrange(0, i as int)),
        decreases n - i,
    {
        let ghost cur = sources.deep_view().subrange(0, i + 1);
        proof {
            assert(cur.drop_last() =~= sources.deep_view().subrange(0, i as int));
            assert(cur.last() == sources.deep_view()[i as int]);
        }
        s.append(" ");
        s.append(sources[i].as_str());
        proof {
            assert(s@ =~= head + spaced(cur));
        }
        i = i + 1;
    }
    proof {
        assert(sources.deep_view().subrange(0, n as int) =~= sources.deep_view());
    }
    s.append("\necho \"Place and route with nextpnr...\"\nnextpnr-ice40 --");
    s.append(cfg.device.as_str());
    s.append(" --package ");
    s.append(cfg.package.as_str());
    s.append(" --json fpga/top.json --pcf ");
    s.append(cfg.pcf.as_str());
    s.append(
        " --asc fpga/top.asc\necho \"Generating bitstream...\"\nicepack fpga/top.asc fpga/top.bin\necho \"FPGA build complete: fpga/top.bin\"\n",
    );
    s
}

/// The command vector that delegates to the legacy build descriptor.
pub fn legacy_build_cmd() -> (r: Vec<String>)
    ensures
        r.deep_view() == seq!["make"@, "-C"@, "fpga"@],
{
    let mut v: Vec<String> = Vec::new();
    push_str(&mut v, "make");
    push_str(&mut v, "-C");
    push_str(&mut v, "fpga");
    proof {
        assert(v.deep_view() =~= seq!["make"@, "-C"@, "fpga"@]);
    }
    v
}

/// The command vector that cleans the legacy hardware build.
pub fn legacy_clean_cmd() -> (r: Vec<String>)
    ensures
        r.deep_view() == seq!["make"@, "-C"@, "fpga"@, "clean"@],
{
    let mut v: Vec<String> = Vec::new();
    push_str(&mut v, "make");
    push_str(&mut v, "-C");
    push_str(&mut v, "fpga");
    push_str(&mut v, "clean");
    proof {
        assert(v.deep_view() =~= seq!["make"@, "-C"@, "fpga"@, "clean"@]);
    }
    v
}

/// Wraps a shell command line for the backend: it runs under `bash -c`.
pub fn bash_command(script: String) -> (r: Vec<String>)
    ensures
        r.deep_view() == seq!["bash"@, "-c"@, script@],
{
    let ghost sv = script@;
    let mut v: Vec<String> = Vec::new();
    push_str(&mut v, "bash");
    push_str(&mut v, "-c");
    push_owned(&mut v, script);
    proof {
        assert(v.deep_view() =~= seq!["bash"@, "-c"@, sv]);
    }
    v
}

/// The firmware stage's shell line, with any extra arguments appended.
pub open spec fn firmware_build_command_of(args: Seq<Seq<char>>) -> Seq<char> {
    "cd firmware && idf.py build"@ + spaced(args)
}

/// Builds the firmware stage's shell line.
pub fn firmware_build_command(args: &Vec<String>) -> (r: String)
    ensures
        r@ == firmware_build_command_of(args.deep_view()),
{
    let mut s = "cd firmware && idf.py build".to_owned();
    let n = args.len();
    let mut i: usize = 0;
    let ghost head = s@;
    proof {
        assert(args.deep_view().subrange(0, 0) =~= Seq::<Seq<char>>::empty());
        assert(s@ =~= head + spaced(args.deep_view().subrange(0, 0)));
    }
    while i < n
        invariant
            n == args@.len(),
            0 <= i <= n,
            s@ == head + spaced(args.deep_view().subrange(0, i as int)),
        decreases n - i,
    {
        let ghost cur = args.deep_view().subrange(0, i + 1);
        proof {
            assert(cur.drop_last() =~= args.deep_view().subrange(0, i as int));
            assert(cur.last() == args.deep_view()[i as int]);
        }
        s.append(" ");
        s.append(args[i].as_str());
        proof {
            assert(s@ =~= head + spaced(cur));
        }
        i = i + 1;
    }
    proof {
        assert(args.deep_view().subrange(0, n as int) =~= args.deep_view());
    }
    s
}

/// The firmware tool's shell line for one subcommand against a serial
/// port: flashing, monitoring, or both.
pub fn idf_port_command(port: &str, op: &str) -> (r: String)
    ensures
        r@ == "cd firmware && idf.py -p "@ + port@ + " "@ + op@,
{
    let mut s = "cd firmware && idf.py -p ".to_owned();
    s.append(port);
    s.append(" ");
    s.append(op);
    s
}

/// The firmware tool's shell line for one portless subcommand, such as
/// cleaning or the configuration menu.
pub fn idf_command(op: &str) -> (r: String)
    ensures
        r@ == "cd firmware && idf.py "@ + op@,
{
    let mut s = "cd firmware && idf.py ".to_owned();
    s.append(op);
    s
}

/// The lint pass over the hardware sources of a directory.
pub fn lint_command(fpga_dir: &str) -> (r: String)
    ensures
        r@ == "find "@ + fpga_dir@ + "/rtl -name '*.v' | xargs verilator --lint-only -Wall 2>&1 || true"@,
{
    let mut s = "find ".to_owned();
    s.append(fpga_dir);
    s.append("/rtl -name '*.v' | xargs verilator --lint-only -Wall 2>&1 || true");
    s
}

} // verus!
