use jail::config::{get_runtime_override, Config};
use jail::error::JailError;
use jail::image::IMAGE_NAME;
use jail::lifecycle::{
    after_shell, default_workspace_dir, editor_uri, enter, plan_clone, plan_create,
    removal_plan, JailMetadata, EMPTY_SOURCE,
};
use jail::reconcile::{run_args, EngineCall};
use jail::runtime::{detect, install_instructions, runtime_named, Runtime};

fn record(ports: Vec<u16>) -> JailMetadata {
    JailMetadata::new(
        "https://github.com/acme/widget.git",
        Runtime::Podman,
        ports,
        "widget".to_string(),
        "1700000000".to_string(),
    )
}

fn strings(list: &[&str]) -> Vec<String> {
    list.iter().map(|s| s.to_string()).collect()
}

#[test]
fn new_record_fields() {
    let m = record(vec![8080]);
    assert_eq!(m.source, "https://github.com/acme/widget.git");
    assert_eq!(m.container_id, None);
    assert_eq!(m.runtime, Runtime::Podman);
    assert_eq!(m.created_at, "1700000000");
    assert_eq!(m.ports, vec![8080]);
    assert_eq!(m.workspace_dir, "widget");
    assert_eq!(default_workspace_dir(), "workspace");
    assert_eq!(EMPTY_SOURCE, "(empty)");
}

#[test]
fn new_record_keeps_each_port_once() {
    let m = record(vec![8080, 3000, 8080]);
    assert_eq!(m.ports, vec![8080, 3000]);
}

#[test]
fn merging_ports_adds_only_new_ones() {
    let mut m = record(vec![8080]);
    assert!(m.merge_ports(&vec![3000, 8080, 3000]));
    assert_eq!(m.ports, vec![8080, 3000]);
    assert!(!m.merge_ports(&vec![3000]));
    assert!(!m.merge_ports(&vec![]));
    assert_eq!(m.ports, vec![8080, 3000]);
}

#[test]
fn enter_with_known_ports_does_not_recreate() {
    let mut m = record(vec![8080]);
    let plan = enter("acme/widget", "/j/acme_widget", &mut m, &vec![8080], false, None);
    assert!(!plan.save_record);
    assert!(!plan.reconciler.recreate);
    assert_eq!(plan.first_call, EngineCall::ListAll("jail-acme-widget".to_string()));
    assert_eq!(plan.launch.host_workspace, "/j/acme_widget/widget");
}

#[test]
fn enter_with_new_port_recreates_with_same_workspace() {
    let mut m = record(vec![8080]);
    let plan = enter("acme/widget", "/j/acme_widget", &mut m, &vec![9000], true, None);
    assert!(plan.save_record);
    assert!(plan.reconciler.recreate);
    assert_eq!(m.ports, vec![8080, 9000]);
    assert_eq!(
        plan.reconciler.recreate_args,
        run_args(&plan.launch, "jail-acme-widget", "jail-temp-acme-widget")
    );
    assert_eq!(
        plan.reconciler.fresh_args,
        run_args(&plan.launch, "jail-acme-widget", IMAGE_NAME)
    );
    assert!(plan.reconciler.recreate_args.contains(&"/j/acme_widget/widget:/widget".to_string()));
    assert!(plan.reconciler.recreate_args.contains(&"9000:9000".to_string()));
}

#[test]
fn shell_exit_always_stops_the_container() {
    assert_eq!(after_shell("abc", true), (EngineCall::Stop("abc".to_string()), Ok(())));
    assert_eq!(
        after_shell("abc", false),
        (EngineCall::Stop("abc".to_string()), Err(JailError::ShellFailed))
    );
}

#[test]
fn removal_stops_and_removes_then_deletes_directory() {
    let plan = removal_plan("/j", "acme/widget");
    assert_eq!(plan.stop, EngineCall::Stop("jail-acme-widget".to_string()));
    assert_eq!(plan.remove, EngineCall::Remove("jail-acme-widget".to_string()));
    assert_eq!(plan.jail_dir, "/j/acme_widget");
}

#[test]
fn editor_uri_hex_encodes_the_id() {
    assert_eq!(
        editor_uri("abc", "widget"),
        "vscode-remote://attached-container+616263/widget"
    );
}

#[test]
fn clone_plan_for_acme_widget() {
    let plan = plan_clone("/j", "https://github.com/acme/widget.git", None);
    assert_eq!(plan.name, "acme/widget");
    assert_eq!(plan.dir, "/j/acme_widget");
    assert_eq!(plan.workspace_name, "widget");
    assert_eq!(plan.workspace_path, "/j/acme_widget/widget");
    let named = plan_clone("/j", "/src/thing", Some("mine"));
    assert_eq!(named.name, "mine");
    assert_eq!(named.workspace_path, "/j/mine/mine");
}

#[test]
fn create_plan_names_workspace_after_jail() {
    let plan = plan_create("/j", "scratch");
    assert_eq!(plan.name, "scratch");
    assert_eq!(plan.dir, "/j/scratch");
    assert_eq!(plan.workspace_name, "scratch");
    assert_eq!(plan.workspace_path, "/j/scratch/scratch");
}

#[test]
fn ssh_agent_forwarding_per_engine() {
    assert_eq!(
        Runtime::Docker.ssh_agent_mount(true, None),
        Some(strings(&[
            "-v",
            "/run/host-services/ssh-auth.sock:/run/ssh.sock:ro",
            "-e",
            "SSH_AUTH_SOCK=/run/ssh.sock",
        ]))
    );
    assert_eq!(Runtime::Podman.ssh_agent_mount(true, Some("/tmp/agent")), None);
    assert_eq!(
        Runtime::Podman.ssh_agent_mount(false, Some("/tmp/agent")),
        Some(strings(&["-v", "/tmp/agent:/run/ssh.sock:ro", "-e", "SSH_AUTH_SOCK=/run/ssh.sock"]))
    );
    assert_eq!(Runtime::Docker.ssh_agent_mount(false, None), None);
}

#[test]
fn detect_prefers_override_then_podman() {
    assert_eq!(detect(Some(Runtime::Docker), true, true), Ok(Runtime::Docker));
    assert_eq!(
        detect(Some(Runtime::Docker), true, false),
        Err(JailError::RuntimeUnavailable(Runtime::Docker))
    );
    assert_eq!(detect(None, true, true), Ok(Runtime::Podman));
    assert_eq!(detect(None, false, true), Ok(Runtime::Docker));
    assert_eq!(detect(None, false, false), Err(JailError::NoRuntime));
}

#[test]
fn runtime_override_from_environment_or_config() {
    let none = Config::default();
    let docker = Config { runtime: Some(Runtime::Docker) };
    assert_eq!(get_runtime_override(Some("PODMAN"), &docker), Ok(Some(Runtime::Podman)));
    assert_eq!(
        get_runtime_override(Some("lxc"), &docker),
        Err(JailError::InvalidRuntime("lxc".to_string()))
    );
    assert_eq!(get_runtime_override(None, &docker), Ok(Some(Runtime::Docker)));
    assert_eq!(get_runtime_override(None, &none), Ok(None));
    assert_eq!(runtime_named("docker"), Some(Runtime::Docker));
    assert_eq!(runtime_named("Docker"), None);
}

#[test]
fn install_instructions_per_os() {
    assert!(install_instructions("macos").contains("brew install podman"));
    assert!(install_instructions("linux").contains("sudo apt install podman"));
    assert_eq!(
        install_instructions("windows"),
        "Please install Docker or Podman for your platform."
    );
}
