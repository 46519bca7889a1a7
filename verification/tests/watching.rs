use affogato::watch::{
    firmware_dir_of, hardware_dir_of, path_is_relevant, should_trigger_rebuild, watch_step,
    BuildAction, WatchEvent, WatchEventKind, WatchState,
};

fn event(kind: WatchEventKind, paths: &[&str]) -> WatchEvent {
    WatchEvent { kind, paths: paths.iter().map(|s| s.to_string()).collect() }
}

fn fresh() -> WatchState {
    WatchState::new(500, false, "/p/fpga".to_string())
}

#[test]
fn debounce_allows_one_rebuild_per_window() {
    let mut state = fresh();
    let ev = event(WatchEventKind::Modify, &["/p/fpga/rtl/top.v"]);

    // Two eligible events inside one 500 ms window: exactly one rebuild.
    assert_eq!(watch_step(&mut state, &ev, 0), Some(BuildAction::Hardware));
    assert_eq!(watch_step(&mut state, &ev, 300), None);
    // A third event after the window triggers again.
    assert_eq!(watch_step(&mut state, &ev, 600), Some(BuildAction::Hardware));
}

#[test]
fn the_window_closes_exactly_at_its_width() {
    let mut state = fresh();
    let ev = event(WatchEventKind::Modify, &["/p/fpga/rtl/top.v"]);
    assert!(watch_step(&mut state, &ev, 0).is_some());
    assert_eq!(watch_step(&mut state, &ev, 499), None);
    assert!(watch_step(&mut state, &ev, 500).is_some());
}

#[test]
fn hardware_changes_run_only_the_hardware_stage() {
    // Even with firmware watching active and firmware files unchanged.
    let mut state = fresh();
    let ev = event(WatchEventKind::Create, &["/p/fpga/rtl/spi.v"]);
    assert_eq!(watch_step(&mut state, &ev, 10), Some(BuildAction::Hardware));
}

#[test]
fn other_changes_run_the_full_pipeline() {
    let mut state = fresh();
    let ev = event(WatchEventKind::Modify, &["/p/firmware/main/main.c"]);
    assert_eq!(watch_step(&mut state, &ev, 10), Some(BuildAction::Full));
}

#[test]
fn hardware_only_mode_skips_foreign_changes_but_consumes_the_window() {
    let mut state = WatchState::new(500, true, "/p/fpga".to_string());
    let foreign = event(WatchEventKind::Modify, &["/p/firmware/main/main.c"]);
    let hw = event(WatchEventKind::Modify, &["/p/fpga/rtl/top.v"]);
    assert_eq!(watch_step(&mut state, &foreign, 0), None);
    // The skipped trigger still moved the window, as a trigger does.
    assert_eq!(watch_step(&mut state, &hw, 100), None);
    assert_eq!(watch_step(&mut state, &hw, 700), Some(BuildAction::Hardware));
}

#[test]
fn ineligible_events_never_trigger_nor_touch_the_window() {
    let mut state = fresh();
    let removal = event(WatchEventKind::Other, &["/p/fpga/rtl/top.v"]);
    let artifact = event(WatchEventKind::Modify, &["/p/fpga/top.bin"]);
    assert!(!should_trigger_rebuild(&removal));
    assert!(!should_trigger_rebuild(&artifact));
    assert_eq!(watch_step(&mut state, &removal, 0), None);
    assert_eq!(watch_step(&mut state, &artifact, 0), None);
    // The window was never opened, so the next eligible event fires at once.
    let ev = event(WatchEventKind::Modify, &["/p/fpga/rtl/top.v"]);
    assert_eq!(watch_step(&mut state, &ev, 1), Some(BuildAction::Hardware));
}

#[test]
fn relevance_covers_extensions_and_descriptors() {
    assert!(path_is_relevant("/p/fpga/rtl/top.v"));
    assert!(path_is_relevant("/p/fpga/rtl/TOP.V"));
    assert!(path_is_relevant("/p/firmware/main/main.c"));
    assert!(path_is_relevant("/p/firmware/sdkconfig.defaults.toml"));
    assert!(path_is_relevant("/p/fpga/project.pcf"));
    assert!(path_is_relevant("/p/firmware/Makefile"));
    assert!(path_is_relevant("/p/firmware/Kconfig"));
    assert!(path_is_relevant("/p/firmware/CMakeLists.txt"));
    assert!(!path_is_relevant("/p/fpga/top.bin"));
    assert!(!path_is_relevant("/p/notes"));
    assert!(!path_is_relevant("/p/.hidden"));
}

#[test]
fn an_event_is_eligible_when_any_path_is_relevant() {
    let mixed = event(WatchEventKind::Modify, &["/p/a.bin", "/p/fpga/rtl/x.v"]);
    assert!(should_trigger_rebuild(&mixed));
    let none = event(WatchEventKind::Modify, &[]);
    assert!(!should_trigger_rebuild(&none));
}

#[test]
fn subtree_helpers() {
    assert_eq!(hardware_dir_of("/p"), "/p/fpga");
    assert_eq!(firmware_dir_of("/p"), "/p/firmware");
}
