use affogato::errors::Error;
use affogato::testing::{
    classify_output, discover_tests, first_existing, highlight_output, rtl_dir_of,
    run_tests_parallel, run_tests_sequential, suite_result, summarize, test_dir_candidates,
    test_script, test_unit_of, tb_file_name, Severity, Summary, TestResult,
};

fn strs(v: &[&str]) -> Vec<String> {
    v.iter().map(|s| s.to_string()).collect()
}

#[test]
fn discovery_strips_and_sorts() {
    // Discovery + classification round trip over a mixed directory.
    let files = strs(&["a_tb.v", "b_tb.v", "c_x.v"]);
    assert_eq!(discover_tests(&files, None).unwrap(), strs(&["a", "b"]));

    let unsorted = strs(&["zeta_tb.v", "alpha_tb.v", "mid_tb.v"]);
    assert_eq!(discover_tests(&unsorted, None).unwrap(), strs(&["alpha", "mid", "zeta"]));
}

#[test]
fn discovery_of_an_empty_directory_succeeds_with_no_units() {
    let none: Vec<String> = Vec::new();
    let units = discover_tests(&none, None).unwrap();
    assert!(units.is_empty());
    // An empty suite is a success, not an error.
    assert!(suite_result(&Vec::new()).is_ok());
}

#[test]
fn requested_unit_is_scheduled_alone() {
    let files = strs(&["a_tb.v", "b_tb.v"]);
    assert_eq!(discover_tests(&files, Some("b")).unwrap(), strs(&["b"]));
}

#[test]
fn requested_unit_must_exist() {
    let files = strs(&["a_tb.v"]);
    match discover_tests(&files, Some("ghost")) {
        Err(e) => {
            assert_eq!(e, Error::TestNotFound { name: "ghost".to_string() });
            assert_eq!(e.message(), "Test not found: ghost_tb.v");
        }
        Ok(_) => panic!("a missing bench must be an error"),
    }
}

#[test]
fn classification_requires_an_explicit_pass() {
    assert!(classify_output("All checks PASS today"));
    assert!(!classify_output("ERROR: mismatch, though tests pass"));
    assert!(!classify_output(""));
    assert!(!classify_output("simulation finished"));
    assert!(!classify_output("1 test FAILED, 3 passed"));
    assert!(classify_output("PASSED"));
}

#[test]
fn highlighting_grades_lines() {
    assert_eq!(highlight_output("ERROR: x"), Severity::Problem);
    assert_eq!(highlight_output("Timing FAIL"), Severity::Problem);
    assert_eq!(highlight_output("Warning: wide bus"), Severity::Warning);
    assert_eq!(highlight_output("test pass"), Severity::Success);
    assert_eq!(highlight_output("elaborating"), Severity::Plain);
    // A problem outranks a mentioned pass on the same line.
    assert_eq!(highlight_output("pass then error"), Severity::Problem);
}

#[test]
fn candidates_are_probed_in_order() {
    assert_eq!(
        test_dir_candidates("fpga"),
        strs(&["fpga/rtl_test", "fpga/test", "fpga/testbench", "fpga_test"])
    );
    let c = test_dir_candidates("fpga");
    assert_eq!(first_existing(&c, &vec![false, true, true, false]), Some(1));
    assert_eq!(first_existing(&c, &vec![false, false, false, false]), None);
    assert_eq!(rtl_dir_of("fpga"), "fpga/rtl");
}

#[test]
fn unit_naming() {
    assert_eq!(tb_file_name("uart"), "uart_tb.v");
    let u = test_unit_of("fpga/test", "uart");
    assert_eq!(u.name, "uart");
    assert_eq!(u.path, "fpga/test/uart_tb.v");
}

#[test]
fn the_script_interpolates_every_parameter() {
    let s = test_script("fpga/rtl", "fpga/test", "uart", true);
    let expected = format!(
        r#"
set -e
cd /workspace

# Create temp directory for test
TMPDIR=$(mktemp -d)
trap "rm -rf $TMPDIR" EXIT

# Find all RTL sources
RTL_FILES=$(find {rtl_dir} -name '*.v' | tr '\n' ' ')

# Compile with iverilog
iverilog -g2012 -Wall \
    -DNO_ICE40_DEFAULT_ASSIGNMENTS \
    -s {test_name}_tb \
    -o $TMPDIR/test \
    $RTL_FILES \
    {test_dir}/{test_name}_tb.v \
    2>&1

# Run simulation
cd $TMPDIR
./test 2>&1

# Check for VCD output and optionally view
if [ "{view}" = "true" ]; then
    VCD=$(ls *.vcd 2>/dev/null | head -1 || true)
    if [ -n "$VCD" ]; then
        cp $VCD /workspace/{test_dir}/
        echo "VCD saved to {test_dir}/$VCD"
    fi
fi
"#,
        rtl_dir = "fpga/rtl",
        test_dir = "fpga/test",
        test_name = "uart",
        view = true,
    );
    assert_eq!(s, expected);
    let without_view = test_script("fpga/rtl", "fpga/test", "uart", false);
    assert!(without_view.contains("if [ \"false\" = \"true\" ]"));
}

#[test]
fn sequential_results_keep_schedule_order() {
    let names = strs(&["a", "b", "c"]);
    let outputs = strs(&["PASS", "ERROR: boom", "ok: pass"]);
    let durations: Vec<u64> = vec![12, 34, 56];
    let rs = run_tests_sequential(&names, &outputs, &durations);
    assert_eq!(rs.len(), 3);
    assert_eq!(rs[0].name, "a");
    assert!(rs[0].passed);
    assert_eq!(rs[0].duration_ms, 12);
    assert_eq!(rs[0].output, "PASS");
    assert!(!rs[1].passed);
    assert!(rs[2].passed);
}

#[test]
fn parallel_mode_degrades_visibly_to_the_same_results() {
    let names = strs(&["a", "b"]);
    let outputs = strs(&["PASS", "PASS"]);
    let durations: Vec<u64> = vec![1, 2];
    let (rs, degraded) = run_tests_parallel(&names, &outputs, &durations);
    assert!(degraded, "the sequential fallback must be announced");
    assert_eq!(rs, run_tests_sequential(&names, &outputs, &durations));
}

fn result(name: &str, passed: bool) -> TestResult {
    TestResult { name: name.to_string(), passed, duration_ms: 1, output: String::new() }
}

#[test]
fn suite_aggregation_reports_two_passed_one_failed() {
    let rs = vec![result("a", true), result("b", false), result("c", true)];
    assert_eq!(summarize(&rs), Summary { passed: 2, failed: 1 });
    match suite_result(&rs) {
        Err(e) => {
            assert_eq!(e, Error::SomeTestsFailed);
            assert_eq!(e.message(), "Some tests failed");
        }
        Ok(_) => panic!("one failing unit must fail the suite"),
    }
}

#[test]
fn all_passing_suite_succeeds() {
    let rs = vec![result("a", true), result("b", true)];
    assert_eq!(summarize(&rs), Summary { passed: 2, failed: 0 });
    assert!(suite_result(&rs).is_ok());
}
