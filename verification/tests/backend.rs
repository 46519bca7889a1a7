use affogato::docker::{exit_result, Docker};
use affogato::errors::Error;
use affogato::project::Project;

fn adapter() -> Docker {
    Docker::new(Some("img:1".to_string()), false, true).expect("backend present")
}

fn strs(v: &[&str]) -> Vec<String> {
    v.iter().map(|s| s.to_string()).collect()
}

#[test]
fn adapter_requires_the_backend_tool() {
    match Docker::new(None, false, false) {
        Err(Error::BackendUnavailable) => {}
        other => panic!("expected BackendUnavailable, got {:?}", other),
    }
    assert_eq!(
        Error::BackendUnavailable.message(),
        "Docker not found. Please install Docker: https://docs.docker.com/get-docker/"
    );
}

#[test]
fn adapter_defaults_the_image() {
    let d = Docker::new(None, true, true).expect("backend present");
    assert_eq!(d.image, "ghcr.io/meawoppl/affogato:latest");
    assert!(d.verbose);
}

#[test]
fn interactive_invocation_arguments() {
    let d = adapter();
    let p = Project::from_legacy("/work/demo".to_string());
    let args = d
        .run_in_project_args(&p, &strs(&["make", "-C", "fpga"]), &strs(&["VERBOSE=1"]), false)
        .expect("project present");
    assert_eq!(
        args,
        strs(&[
            "run",
            "--rm",
            "-v",
            "/work/demo:/workspace",
            "-w",
            "/workspace",
            "img:1",
            "make",
            "-C",
            "fpga",
            "VERBOSE=1",
        ])
    );
}

#[test]
fn device_exposure_adds_the_two_flags_before_the_image() {
    let d = adapter();
    let p = Project::from_legacy("/work/demo".to_string());
    let args = d
        .run_in_project_args(&p, &strs(&["/bin/bash"]), &strs(&[]), true)
        .expect("project present");
    assert_eq!(
        args,
        strs(&[
            "run",
            "--rm",
            "-v",
            "/work/demo:/workspace",
            "-w",
            "/workspace",
            "--device=/dev/ttyACM0",
            "--privileged",
            "img:1",
            "/bin/bash",
        ])
    );
}

#[test]
fn capturing_invocation_arguments() {
    let d = adapter();
    let p = Project::from_legacy("/work/demo".to_string());
    let args = d
        .run_in_project_capture_args(&p, &strs(&["bash", "-c", "true"]))
        .expect("project present");
    assert_eq!(
        args,
        strs(&["run", "--rm", "-v", "/work/demo:/workspace", "-w", "/workspace", "img:1", "bash", "-c", "true"])
    );
}

#[test]
fn extra_mounts_stand_between_base_and_device_flags() {
    let d = adapter();
    let p = Project::from_legacy("/work/demo".to_string());
    let args = d
        .run_in_project_with_extra_mounts_args(
            &p,
            &strs(&["bash", "-c", "true"]),
            &strs(&["-v /c:/workspace/components"]),
            true,
        )
        .expect("project present");
    assert_eq!(
        args,
        strs(&[
            "run",
            "--rm",
            "-v",
            "/work/demo:/workspace",
            "-w",
            "/workspace",
            "-v /c:/workspace/components",
            "--device=/dev/ttyACM0",
            "--privileged",
            "img:1",
            "bash",
            "-c",
            "true",
        ])
    );
}

#[test]
fn standalone_invocation_mounts_the_current_directory_interactively() {
    let d = adapter();
    let args = d.run_standalone_args("/somewhere", &strs(&["/bin/bash"]), false);
    assert_eq!(
        args,
        strs(&["run", "--rm", "-it", "-v", "/somewhere:/workspace", "-w", "/workspace", "img:1", "/bin/bash"])
    );
}

#[test]
fn project_invocations_demand_a_project() {
    let d = adapter();
    let absent = Project::absent();
    assert!(matches!(
        d.run_in_project_args(&absent, &strs(&["true"]), &strs(&[]), false),
        Err(Error::NotInProject)
    ));
    assert!(matches!(
        d.run_in_project_capture_args(&absent, &strs(&["true"])),
        Err(Error::NotInProject)
    ));
}

#[test]
fn image_management_arguments() {
    let d = adapter();
    assert_eq!(d.pull_args(), strs(&["pull", "img:1"]));
    assert_eq!(d.image_inspect_args(), strs(&["image", "inspect", "img:1"]));
}

#[test]
fn image_identifiers_shorten_past_the_scheme_prefix() {
    assert_eq!(
        Docker::short_image_id("sha256:0123456789abcdef0123").as_deref(),
        Some("0123456789ab")
    );
    assert_eq!(Docker::short_image_id("sha256:0123"), None);
}

#[test]
fn exit_statuses_classify_exactly() {
    assert!(exit_result(true, Some(0)).is_ok());
    match exit_result(false, Some(3)) {
        Err(e) => {
            assert_eq!(e, Error::CommandFailed { code: Some(3) });
            assert_eq!(e.message(), "Command failed with exit code: 3");
        }
        Ok(_) => panic!("a non-zero exit must be an error"),
    }
    match exit_result(false, None) {
        Err(e) => assert_eq!(e.message(), "Command failed with exit code: unknown"),
        Ok(_) => panic!("a non-zero exit must be an error"),
    }
    match exit_result(false, Some(-11)) {
        Err(e) => assert_eq!(e.message(), "Command failed with exit code: -11"),
        Ok(_) => panic!("a non-zero exit must be an error"),
    }
}
