use affogato::config::Config;
use affogato::project::{default_device, default_package, default_top, FpgaConfig, ProjectConfig};

#[test]
fn documented_defaults() {
    assert_eq!(default_device(), "up5k");
    assert_eq!(default_package(), "sg48");
    assert_eq!(default_top(), "top");
    let f = FpgaConfig::default();
    assert_eq!(f.device, "up5k");
    assert_eq!(f.package, "sg48");
    assert_eq!(f.top, "top");
    assert!(f.pcf.is_none());
    assert!(f.includes.is_empty());
}

#[test]
fn parses_a_full_project_configuration() {
    let text = "[project]\n\
        name = \"blinky\"\n\
        \n\
        [fpga]\n\
        device = \"hx8k\"\n\
        package = \"ct256\"\n\
        top = \"main\"\n\
        pcf = \"fpga/pins.pcf\"\n\
        include = [\"lib/uart.v\", \"lib/spi\"]\n\
        \n\
        [firmware]\n\
        project_name = \"blinky-fw\"\n";
    let c = ProjectConfig::parse(text).expect("well-formed document");
    assert_eq!(c.project.name.as_deref(), Some("blinky"));
    assert_eq!(c.fpga.device, "hx8k");
    assert_eq!(c.fpga.package, "ct256");
    assert_eq!(c.fpga.top, "main");
    assert_eq!(c.fpga.pcf.as_deref(), Some("fpga/pins.pcf"));
    assert_eq!(c.fpga.includes, vec!["lib/uart.v".to_string(), "lib/spi".to_string()]);
    assert_eq!(c.firmware.project_name.as_deref(), Some("blinky-fw"));
}

#[test]
fn absent_keys_fall_back_to_defaults() {
    let c = ProjectConfig::parse("[project]\nname = \"x\"\n").expect("well-formed document");
    assert_eq!(c.fpga.device, "up5k");
    assert_eq!(c.fpga.package, "sg48");
    assert_eq!(c.fpga.top, "top");
    assert!(c.fpga.pcf.is_none());
    assert!(c.fpga.includes.is_empty());
    assert!(c.firmware.project_name.is_none());

    let c = ProjectConfig::parse("").expect("an empty document is well-formed");
    assert!(c.project.name.is_none());
    assert_eq!(c.fpga.device, "up5k");
}

#[test]
fn malformed_documents_are_rejected() {
    assert!(ProjectConfig::parse("= nonsense").is_none());
    assert!(ProjectConfig::parse("[fpga]\ndevice = 5\n").is_none());
    assert!(ProjectConfig::parse("[fpga]\ninclude = [\"a.v\", 3]\n").is_none());
    assert!(ProjectConfig::parse("[fpga]\ninclude = \"a.v\"\n").is_none());
}

#[test]
fn the_include_key_fills_the_path_list() {
    // The key of the original file format, alone in its section.
    let c = ProjectConfig::parse("[fpga]\ninclude = [\"lib/pll.v\"]\n").expect("well-formed");
    assert_eq!(c.fpga.includes, vec!["lib/pll.v".to_string()]);
    // A configuration without it parses to an empty list.
    let c = ProjectConfig::parse("[fpga]\ndevice = \"up5k\"\n").expect("well-formed");
    assert!(c.fpga.includes.is_empty());
}

#[test]
fn tool_configuration_reads_the_image() {
    let c = Config::parse("[docker]\nimage = \"example.test/img:1\"\n").expect("well-formed");
    assert_eq!(c.docker.image, "example.test/img:1");

    let c = Config::parse("").expect("empty is well-formed");
    assert_eq!(c.docker.image, "ghcr.io/meawoppl/affogato:latest");

    assert!(Config::parse("[docker]\nimage = 7\n").is_none());
    assert_eq!(Config::default().docker.image, "ghcr.io/meawoppl/affogato:latest");
}

#[test]
fn config_path_lies_under_the_configuration_directory() {
    assert_eq!(Config::config_path("/home/u/.config"), "/home/u/.config/affogato/config.toml");
}
