//! The test harness: locating the test directory, discovering test-bench
//! units, classifying captured simulator output, and aggregating the suite
//! verdict. Each unit's actual compile-and-simulate run happens in the
//! container; this crate decides what to run and what the outcome means.

use vstd::prelude::*;

verus! {

use crate::errors::Error;
use crate::text::contains_ci;
use crate::text::ends_with_seq;
use crate::text::push_owned;
use crate::text::sort_names;
use crate::text::sorted_lex;
use crate::text::str_contains_ci;
use crate::text::str_ends_with;
use crate::text::str_eq;

broadcast use crate::text::group_vec_string_view;

/// The conventional test directory names, probed in this order.
pub open spec fn test_dir_candidates_of(fpga_dir: Seq<char>) -> Seq<Seq<char>> {
    seq![
        fpga_dir + "/rtl_test"@,
        fpga_dir + "/test"@,
        fpga_dir + "/testbench"@,
        fpga_dir + "_test"@,
    ]
}

/// Builds the candidate test directories for a hardware directory.
pub fn test_dir_candidates(fpga_dir: &str) -> (r: Vec<String>)
    ensures
        r.deep_view() == test_dir_candidates_of(fpga_dir@),
{
    let mut r: Vec<String> = Vec::new();
    let mut a = fpga_dir.to_owned();
    a.append("/rtl_test");
    push_owned(&mut r, a);
    let mut b = fpga_dir.to_owned();
    b.append("/test");
    push_owned(&mut r, b);
    let mut c = fpga_dir.to_owned();
    c.append("/testbench");
    push_owned(&mut r, c);
    let mut d = fpga_dir.to_owned();
    d.append("_test");
    push_owned(&mut r, d);
    proof {
        assert(r.deep_view() =~= test_dir_candidates_of(fpga_dir@));
    }
    r
}

/// The hardware description sources directory of a hardware directory.
pub fn rtl_dir_of(fpga_dir: &str) -> (r: String)
    ensures
        r@ == fpga_dir@ + "/rtl"@,
{
    let mut s = fpga_dir.to_owned();
    s.append("/rtl");
    s
}

/// Picks the first candidate that exists, where `exist[i]` reports whether
/// `candidates[i]` exists.
pub fn first_existing(candidates: &Vec<String>, exist: &Vec<bool>) -> (r: Option<usize>)
    requires
        candidates@.len() == exist@.len(),
    ensures
        match r {
            Some(i) => i < candidates@.len() && exist@[i as int] && forall|k: int|
                0 <= k < i ==> !exist@[k],
            None => forall|k: int| 0 <= k < exist@.len() ==> !exist@[k],
        },
{
    let mut i: usize = 0;
    while i < exist.len()
        invariant
            candidates@.len() == exist@.len(),
            0 <= i <= exist@.len(),
            forall|k: int| 0 <= k < i ==> !exist@[k],
        decreases exist@.len() - i,
    {
        if exist[i] {
            return Some(i);
        }
        i = i + 1;
    }
    None
}

/// The pass/fail heuristic over captured simulator output: a run passes
/// exactly when the output, case-insensitively, holds no "error", no
/// "fail", and at least one "pass". Silent output is a failure.
pub open spec fn passes(output: Seq<char>) -> bool {
    &&& !contains_ci(output, "error"@)
    &&& !contains_ci(output, "fail"@)
    &&& contains_ci(output, "pass"@)
}

/// Classifies one captured output.
pub fn classify_output(output: &str) -> (r: bool)
    ensures
        r == passes(output@),
{
    let has_error = str_contains_ci(output, "error");
    let has_fail = str_contains_ci(output, "fail");
    let has_pass = str_contains_ci(output, "pass");
    !has_error && !has_fail && has_pass
}

/// How one line of output is rendered in reports.
#[derive(Clone, Copy, Debug, PartialEq, Eq, Structural)]
pub enum Severity {
    /// The line mentions an error or a failure.
    Problem,
    /// The line mentions a warning.
    Warning,
    /// The line mentions a pass.
    Success,
    /// Anything else.
    Plain,
}

/// The highlighting rule, case-insensitive, problems first.
pub open spec fn severity_of(line: Seq<char>) -> Severity {
    if contains_ci(line, "error"@) || contains_ci(line, "fail"@) {
        Severity::Problem
    } else if contains_ci(line, "warn"@) {
        Severity::Warning
    } else if contains_ci(line, "pass"@) {
        Severity::Success
    } else {
        Severity::Plain
    }
}

/// Grades one output line for colouring; the caller chooses the colours.
pub fn highlight_output(line: &str) -> (r: Severity)
    ensures
        r == severity_of(line@),
{
    if str_contains_ci(line, "error") || str_contains_ci(line, "fail") {
        Severity::Problem
    } else if str_contains_ci(line, "warn") {
        Severity::Warning
    } else if str_contains_ci(line, "pass") {
        Severity::Success
    } else {
        Severity::Plain
    }
}

/// The test-bench file name of a unit.
pub open spec fn tb_file_of(name: Seq<char>) -> Seq<char> {
    name + "_tb.v"@
}

/// Builds the test-bench file name of a unit.
pub fn tb_file_name(name: &str) -> (r: String)
    ensures
        r@ == tb_file_of(name@),
{
    let mut s = name.to_owned();
    s.append("_tb.v");
    s
}

/// The unit name of a test-bench file: the name with the suffix stripped.
pub open spec fn strip_tb(file: Seq<char>) -> Seq<char> {
    file.subrange(0, file.len() - "_tb.v"@.len())
}

/// The unit names of the test-bench files among `files`, in file order.
pub open spec fn tb_stems(files: Seq<Seq<char>>) -> Seq<Seq<char>>
    decreases files.len(),
{
    if files.len() == 0 {
        Seq::<Seq<char>>::empty()
    } else {
        let rest = tb_stems(files.drop_last());
        if ends_with_seq(files.last(), "_tb.v"@) {
            rest.push(strip_tb(files.last()))
        } else {
            rest
        }
    }
}

/// Some file is the test bench of `name`.
pub open spec fn files_have_bench(files: Seq<Seq<char>>, name: Seq<char>) -> bool {
    exists|k: int| 0 <= k < files.len() && files[k] == tb_file_of(name)
}

/// Discovers the units to schedule from the test directory's file names.
/// With a requested name, only that unit is scheduled, and its absence is
/// the `TestNotFound` error. Without one, every test-bench file yields a
/// unit, reported in ascending name order for determinism.
pub fn discover_tests(filenames: &Vec<String>, specific: Option<&str>) -> (r: Result<
    Vec<String>,
    Error,
>)
    ensures
        match specific {
            Some(name) => match r {
                Ok(ts) => ts.deep_view() == seq![name@] && files_have_bench(
                    filenames.deep_view(),
                    name@,
                ),
                Err(e) => {
                    &&& !files_have_bench(filenames.deep_view(), name@)
                    &&& e matches Error::TestNotFound { name: n } && n@ == name@
                },
            },
            None => match r {
                Ok(ts) => sorted_lex(ts.deep_view()) && ts.deep_view().to_multiset() == tb_stems(
                    filenames.deep_view(),
                ).to_multiset(),
                Err(_) => false,
            },
        },
{
    match specific {
        Some(name) => {
            let target = tb_file_name(name);
            let n = filenames.len();
            let mut i: usize = 0;
            while i < n
                invariant
                    specific == Some(name),
                    n == filenames@.len(),
                    0 <= i <= n,
                    target@ == tb_file_of(name@),
                    forall|k: int| 0 <= k < i ==> filenames.deep_view()[k] != target@,
                decreases n - i,
            {
                if str_eq(filenames[i].as_str(), target.as_str()) {
                    let mut ts: Vec<String> = Vec::new();
                    push_owned(&mut ts, name.to_owned());
                    proof {
                        assert(specific == Some(name));
                        assert(ts.deep_view() =~= seq![name@]);
                        assert(filenames.deep_view()[i as int] == target@);
                        assert(files_have_bench(filenames.deep_view(), name@));
                    }
                    return Ok(ts);
                }
                i = i + 1;
            }
            Err(Error::TestNotFound { name: name.to_owned() })
        },
        None => {
            let mut found: Vec<String> = Vec::new();
            let n = filenames.len();
            let mut i: usize = 0;
            proof {
                assert(filenames.deep_view().subrange(0, 0) =~= Seq::<Seq<char>>::empty());
                assert(found.deep_view() =~= Seq::<Seq<char>>::empty());
            }
            while i < n
                invariant
                    n == filenames@.len(),
                    0 <= i <= n,
                    found.deep_view() == tb_stems(filenames.deep_view().subrange(0, i as int)),
                decreases n - i,
            {
                let ghost sub1 = filenames.deep_view().subrange(0, i + 1);
                proof {
                    assert(sub1.drop_last() =~= filenames.deep_view().subrange(0, i as int));
                    assert(sub1.last() == filenames.deep_view()[i as int]);
                }
                if str_ends_with(filenames[i].as_str(), "_tb.v") {
                    let len = filenames[i].as_str().unicode_len();
                    proof {
                        reveal_strlit("_tb.v");
                    }
                    let stem = filenames[i].as_str().substring_char(0, len - 5);
                    push_owned(&mut found, stem.to_owned());
                    proof {
                        assert(stem@ == strip_tb(filenames.deep_view()[i as int]));
                    }
                } else {
                }
                i = i + 1;
            }
            proof {
                assert(filenames.deep_view().subrange(0, n as int) =~= filenames.deep_view());
            }
            Ok(sort_names(&found))
        },
    }
}

/// One discovered unit: its name and the test-bench file it came from.
#[derive(Debug, Clone, PartialEq)]
pub struct TestUnit {
    pub name: String,
    pub path: String,
}

/// Builds the unit of a name found in a test directory.
pub fn test_unit_of(test_dir: &str, name: &str) -> (u: TestUnit)
    ensures
        u.name@ == name@,
        u.path@ == test_dir@ + "/"@ + tb_file_of(name@),
{
    let mut p = test_dir.to_owned();
    p.append("/");
    p.append(name);
    p.append("_tb.v");
    proof {
        assert(p@ =~= test_dir@ + "/"@ + tb_file_of(name@));
    }
    TestUnit { name: name.to_owned(), path: p }
}

/// The shell script of one unit's run: compile every hardware source under
/// the sources directory together with the unit's bench inside a scratch
/// directory, run the simulation, and optionally copy a produced waveform
/// dump back into the test directory. The scratch directory is removed on
/// every exit path.
pub open spec fn test_script_of(
    rtl_dir: Seq<char>,
    test_dir: Seq<char>,
    test_name: Seq<char>,
    view: bool,
) -> Seq<char> {
    "\nset -e\ncd /workspace\n\n# Create temp directory for test\nTMPDIR=$(mktemp -d)\ntrap \"rm -rf $TMPDIR\" EXIT\n\n# Find all RTL sources\nRTL_FILES=$(find "@
        + rtl_dir
        + " -name '*.v' | tr '\\n' ' ')\n\n# Compile with iverilog\niverilog -g2012 -Wall \\\n    -DNO_ICE40_DEFAULT_ASSIGNMENTS \\\n    -s "@
        + test_name + "_tb \\\n    -o $TMPDIR/test \\\n    $RTL_FILES \\\n    "@ + test_dir + "/"@
        + test_name
        + "_tb.v \\\n    2>&1\n\n# Run simulation\ncd $TMPDIR\n./test 2>&1\n\n# Check for VCD output and optionally view\nif [ \""@
        + (if view {
        "true"@
    } else {
        "false"@
    })
        + "\" = \"true\" ]; then\n    VCD=$(ls *.vcd 2>/dev/null | head -1 || true)\n    if [ -n \"$VCD\" ]; then\n        cp $VCD /workspace/"@
        + test_dir + "/\n        echo \"VCD saved to "@ + test_dir + "/$VCD\"\n    fi\nfi\n"@
}

/// Builds the script of one unit's run.
pub fn test_script(rtl_dir: &str, test_dir: &str, test_name: &str, view: bool) -> (r: String)
    ensures
        r@ == test_script_of(rtl_dir@, test_dir@, test_name@, view),
{
    let mut s =
        "\nset -e\ncd /workspace\n\n# Create temp directory for test\nTMPDIR=$(mktemp -d)\ntrap \"rm -rf $TMPDIR\" EXIT\n\n# Find all RTL sources\nRTL_FILES=$(find ".to_owned();
    s.append(rtl_dir);
    s.append(
        " -name '*.v' | tr '\\n' ' ')\n\n# Compile with iverilog\niverilog -g2012 -Wall \\\n    -DNO_ICE40_DEFAULT_ASSIGNMENTS \\\n    -s ",
    );
    s.append(test_name);
    s.append("_tb \\\n    -o $TMPDIR/test \\\n    $RTL_FILES \\\n    ");
    s.append(test_dir);
    s.append("/");
    s.append(test_name);
    s.append(
        "_tb.v \\\n    2>&1\n\n# Run simulation\ncd $TMPDIR\n./test 2>&1\n\n# Check for VCD output and optionally view\nif [ \"",
    );
    if view {
        s.append("true");
    } else {
        s.append("false");
    }
    s.append(
        "\" = \"true\" ]; then\n    VCD=$(ls *.vcd 2>/dev/null | head -1 || true)\n    if [ -n \"$VCD\" ]; then\n        cp $VCD /workspace/",
    );
    s.append(test_dir);
    s.append("/\n        echo \"VCD saved to ");
    s.append(test_dir);
    s.append("/$VCD\"\n    fi\nfi\n");
    s
}

/// One classified unit run.
#[derive(Debug, Clone, PartialEq)]
pub struct TestResult {
    pub name: String,
    pub passed: bool,
    pub duration_ms: u64,
    pub output: String,
}

/// The results report the given units in their schedule order, each
/// classified from its captured output, with its measured duration and the
/// raw output kept.
pub open spec fn results_report(
    r: Seq<TestResult>,
    names: Seq<Seq<char>>,
    outputs: Seq<Seq<char>>,
    durations: Seq<u64>,
) -> bool {
    &&& r.len() == names.len()
    &&& forall|i: int|
        0 <= i < r.len() ==> {
            &&& (#[trigger] r[i]).name@ == names[i]
            &&& r[i].passed == passes(outputs[i])
            &&& r[i].duration_ms == durations[i]
            &&& r[i].output@ == outputs[i]
        }
}

/// Classifies the captured outcome of every scheduled unit, in schedule
/// order: sequential execution reports results in discovery order.
pub fn run_tests_sequential(
    names: &Vec<String>,
    outputs: &Vec<String>,
    durations_ms: &Vec<u64>,
) -> (r: Vec<TestResult>)
    requires
        names@.len() == outputs@.len(),
        names@.len() == durations_ms@.len(),
    ensures
        results_report(r@, names.deep_view(), outputs.deep_view(), durations_ms@),
{
    let n = names.len();
    let mut r: Vec<TestResult> = Vec::new();
    let mut i: usize = 0;
    while i < n
        invariant
            n == names@.len(),
            names@.len() == outputs@.len(),
            names@.len() == durations_ms@.len(),
            0 <= i <= n,
            r@.len() == i,
            forall|k: int|
                0 <= k < i ==> {
                    &&& (#[trigger] r@[k]).name@ == names.deep_view()[k]
                    &&& r@[k].passed == passes(outputs.deep_view()[k])
                    &&& r@[k].duration_ms == durations_ms@[k]
                    &&& r@[k].output@ == outputs.deep_view()[k]
                },
        decreases n - i,
    {
        let passed = classify_output(outputs[i].as_str());
        let unit = TestResult {
            name: names[i].clone(),
            passed,
            duration_ms: durations_ms[i],
            output: outputs[i].clone(),
        };
        r.push(unit);
        i = i + 1;
    }
    r
}

/// The declared parallel policy. Concurrent runs are not safely available
/// to a shared backend handle, so the harness degrades to the sequential
/// order and says so: the second component is the visible notice, never
/// silent.
pub fn run_tests_parallel(
    names: &Vec<String>,
    outputs: &Vec<String>,
    durations_ms: &Vec<u64>,
) -> (r: (Vec<TestResult>, bool))
    requires
        names@.len() == outputs@.len(),
        names@.len() == durations_ms@.len(),
    ensures
        results_report(r.0@, names.deep_view(), outputs.deep_view(), durations_ms@),
        r.1,
{
    (run_tests_sequential(names, outputs, durations_ms), true)
}

/// The suite tally.
#[derive(Clone, Copy, Debug, PartialEq, Eq, Structural)]
pub struct Summary {
    pub passed: usize,
    pub failed: usize,
}

/// How many results are classified passing.
pub open spec fn count_passed(rs: Seq<TestResult>) -> int
    decreases rs.len(),
{
    if rs.len() == 0 {
        0
    } else {
        count_passed(rs.drop_last()) + (if rs.last().passed {
            1int
        } else {
            0int
        })
    }
}

/// The tally lies between zero and the unit count, and it reaches the unit
/// count exactly when every unit passed: a suite fails exactly when some
/// unit failed.
pub proof fn lemma_count_passed_bounds(rs: Seq<TestResult>)
    ensures
        0 <= count_passed(rs) <= rs.len(),
        (count_passed(rs) == rs.len()) <==> (forall|i: int|
            0 <= i < rs.len() ==> (#[trigger] rs[i]).passed),
    decreases rs.len(),
{
    if rs.len() == 0 {
    } else {
        let prefix = rs.drop_last();
        lemma_count_passed_bounds(prefix);
        assert forall|i: int| 0 <= i < prefix.len() implies prefix[i] == rs[i] by {}
        if count_passed(rs) == rs.len() {
            assert forall|i: int| 0 <= i < rs.len() implies (#[trigger] rs[i]).passed by {
                if i < rs.len() - 1 {
                    assert(prefix[i].passed);
                } else {
                    assert(rs[i] == rs.last());
                }
            }
        }
        if forall|i: int| 0 <= i < rs.len() ==> (#[trigger] rs[i]).passed {
            assert(rs.last() == rs[rs.len() - 1]);
            assert(count_passed(prefix) == prefix.len());
        }
    }
}

/// Tallies a finished suite.
pub fn summarize(results: &Vec<TestResult>) -> (s: Summary)
    ensures
        s.passed == count_passed(results@),
        s.passed + s.failed == results@.len(),
{
    let n = results.len();
    let mut passed: usize = 0;
    let mut i: usize = 0;
    while i < n
        invariant
            n == results@.len(),
            0 <= i <= n,
            passed <= i,
            passed == count_passed(results@.subrange(0, i as int)),
        decreases n - i,
    {
        let ghost sub1 = results@.subrange(0, i + 1);
        proof {
            assert(sub1.drop_last() =~= results@.subrange(0, i as int));
            assert(sub1.last() == results@[i as int]);
        }
        if results[i].passed {
            passed = passed + 1;
        }
        i = i + 1;
    }
    proof {
        assert(results@.subrange(0, n as int) =~= results@);
    }
    Summary { passed, failed: n - passed }
}

/// The suite outcome: success when every unit passed, the
/// `SomeTestsFailed` error exactly when at least one unit failed.
pub fn suite_result(results: &Vec<TestResult>) -> (r: Result<(), Error>)
    ensures
        match r {
            Ok(_) => forall|i: int| 0 <= i < results@.len() ==> (#[trigger] results@[i]).passed,
            Err(e) => e == Error::SomeTestsFailed && exists|i: int|
                0 <= i < results@.len() && !(#[trigger] results@[i]).passed,
        },
{
    let n = results.len();
    let mut i: usize = 0;
    while i < n
        invariant
            n == results@.len(),
            0 <= i <= n,
            forall|k: int| 0 <= k < i ==> (#[trigger] results@[k]).passed,
        decreases n - i,
    {
        if !results[i].passed {
            return Err(Error::SomeTestsFailed);
        }
        i = i + 1;
    }
    Ok(())
}

} // verus!
