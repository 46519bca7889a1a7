use affogato::errors::Error;
use affogato::pipeline::{
    bash_command, build_config_of, choose_strategy, collect_sources, filter_verilog,
    firmware_build_command, hw_build_command, idf_command, idf_port_command, legacy_build_cmd,
    legacy_clean_cmd, lint_command, str_relativize, BuildStrategy,
};
use affogato::project::FpgaConfig;

fn strs(v: &[&str]) -> Vec<String> {
    v.iter().map(|s| s.to_string()).collect()
}

#[test]
fn sources_are_relativized_and_deduplicated_in_order() {
    let found = strs(&[
        "/p/fpga/rtl/top.v",
        "/p/fpga/rtl/uart.v",
        "/p/fpga/rtl/top.v",
        "fpga/third_party/pll.v",
        "/p/fpga/rtl/uart.v",
    ]);
    let got = collect_sources("/p", &found).unwrap();
    assert_eq!(got, strs(&["fpga/rtl/top.v", "fpga/rtl/uart.v", "fpga/third_party/pll.v"]));
}

#[test]
fn repeated_discovery_is_stable() {
    let found = strs(&["/p/fpga/rtl/b.v", "/p/fpga/rtl/a.v"]);
    assert_eq!(collect_sources("/p", &found).unwrap(), collect_sources("/p", &found).unwrap());
}

#[test]
fn an_empty_source_set_is_an_error() {
    match collect_sources("/p", &Vec::new()) {
        Err(e) => {
            assert_eq!(e, Error::NoSourcesFound);
            assert_eq!(e.message(), "No Verilog files found in fpga/rtl/");
        }
        Ok(_) => panic!("no sources must be an error"),
    }
}

#[test]
fn only_verilog_files_count_as_sources() {
    let listing = strs(&[
        "/p/fpga/rtl/top.v",
        "/p/fpga/rtl/notes.md",
        "/p/fpga/rtl/TOP.V",
        "/p/fpga/rtl/uart.v",
        "/p/fpga/rtl/pins.pcf",
    ]);
    // The extension filter is exact, as the original's scan is.
    assert_eq!(filter_verilog(&listing), strs(&["/p/fpga/rtl/top.v", "/p/fpga/rtl/uart.v"]));
}

#[test]
fn paths_outside_the_root_are_kept_as_given() {
    assert_eq!(str_relativize("/p", "/p/fpga/a.v"), "fpga/a.v");
    assert_eq!(str_relativize("/p", "/q/fpga/a.v"), "/q/fpga/a.v");
    assert_eq!(str_relativize("/p", "/px/a.v"), "/px/a.v");
}

#[test]
fn the_three_stage_command_interpolates_the_parameters() {
    let cfg = build_config_of(None);
    let cmd = hw_build_command(&cfg, &strs(&["fpga/rtl/top.v", "fpga/rtl/uart.v"]));
    let expected = format!(
        r#"set -e
cd /workspace
echo "Synthesizing with Yosys..."
yosys -q -p "synth_ice40 -abc2 -relut -top {top} -json fpga/top.json" {verilog_list}
echo "Place and route with nextpnr..."
nextpnr-ice40 --{device} --package {package} --json fpga/top.json --pcf {pcf_file} --asc fpga/top.asc
echo "Generating bitstream..."
icepack fpga/top.asc fpga/top.bin
echo "FPGA build complete: fpga/top.bin"
"#,
        top = "top",
        verilog_list = "fpga/rtl/top.v fpga/rtl/uart.v",
        device = "up5k",
        package = "sg48",
        pcf_file = "fpga/project.pcf",
    );
    assert_eq!(cmd, expected);
}

#[test]
fn derived_parameters_default_field_by_field() {
    let cfg = build_config_of(None);
    assert_eq!(cfg.device, "up5k");
    assert_eq!(cfg.package, "sg48");
    assert_eq!(cfg.top, "top");
    assert_eq!(cfg.pcf, "fpga/project.pcf");
    assert!(cfg.includes.is_empty());

    let fpga = FpgaConfig {
        device: "hx8k".to_string(),
        package: "ct256".to_string(),
        top: "main".to_string(),
        pcf: None,
        includes: strs(&["lib"]),
    };
    let cfg = build_config_of(Some(fpga));
    assert_eq!(cfg.device, "hx8k");
    assert_eq!(cfg.pcf, "fpga/project.pcf");
    assert_eq!(cfg.includes, strs(&["lib"]));
}

#[test]
fn the_legacy_descriptor_wins_only_without_configuration() {
    assert_eq!(choose_strategy(true, None), Some(BuildStrategy::Legacy));
    // A present configuration always derives, descriptor or not.
    assert!(matches!(choose_strategy(true, Some(FpgaConfig::default())), Some(BuildStrategy::Derived(_))));
    assert!(matches!(choose_strategy(false, Some(FpgaConfig::default())), Some(BuildStrategy::Derived(_))));
    // With neither there is no way to build.
    assert_eq!(choose_strategy(false, None), None);
}

#[test]
fn shell_line_builders() {
    assert_eq!(legacy_build_cmd(), strs(&["make", "-C", "fpga"]));
    assert_eq!(legacy_clean_cmd(), strs(&["make", "-C", "fpga", "clean"]));
    assert_eq!(
        bash_command("echo hi".to_string()),
        strs(&["bash", "-c", "echo hi"])
    );
    assert_eq!(firmware_build_command(&Vec::new()), "cd firmware && idf.py build");
    assert_eq!(
        firmware_build_command(&strs(&["-DX=1", "-v"])),
        "cd firmware && idf.py build -DX=1 -v"
    );
    assert_eq!(
        idf_port_command("/dev/ttyACM0", "flash monitor"),
        "cd firmware && idf.py -p /dev/ttyACM0 flash monitor"
    );
    assert_eq!(idf_command("fullclean"), "cd firmware && idf.py fullclean");
    assert_eq!(
        lint_command("fpga"),
        "find fpga/rtl -name '*.v' | xargs verilator --lint-only -Wall 2>&1 || true"
    );
}
