use jail::error::EngineFailure;
use jail::image::IMAGE_NAME;
use jail::reconcile::{engine_args, run_args, EngineCall, LaunchConfig, Reconciler, Reply, Step};

fn strings(list: &[&str]) -> Vec<String> {
    list.iter().map(|s| s.to_string()).collect()
}

fn reply(ok: bool, stdout: &str, stderr: &str) -> Reply {
    Reply { ok, stdout: stdout.to_string(), stderr: stderr.to_string() }
}

fn linux_config(ports: Vec<u16>) -> LaunchConfig {
    LaunchConfig {
        host_workspace: "/data/jails/acme_widget/widget".to_string(),
        workspace_dir: "widget".to_string(),
        ports,
        macos: false,
        ssh_args: None,
    }
}

/// Feeds the replies in turn and collects every step.
fn drive(rc: &mut Reconciler, replies: Vec<Reply>) -> Vec<Step> {
    replies.iter().map(|r| rc.step(r)).collect()
}

#[test]
fn run_args_on_linux_use_host_network() {
    let c = linux_config(vec![8080]);
    assert_eq!(
        run_args(&c, "jail-acme-widget", IMAGE_NAME),
        strings(&[
            "run",
            "-d",
            "-it",
            "--name",
            "jail-acme-widget",
            "--network=host",
            "-v",
            "/data/jails/acme_widget/widget:/widget",
            "-w",
            "/widget",
            "--user",
            "dev",
            "jail-dev:latest",
            "/bin/bash",
        ])
    );
}

#[test]
fn run_args_on_macos_publish_each_port_and_forward_agent() {
    let mut c = linux_config(vec![8080, 3000]);
    c.macos = true;
    c.ssh_args = Some(strings(&["-e", "X=1"]));
    assert_eq!(
        run_args(&c, "jail-w", "img"),
        strings(&[
            "run",
            "-d",
            "-it",
            "--name",
            "jail-w",
            "-p",
            "8080:8080",
            "-p",
            "3000:3000",
            "-v",
            "/data/jails/acme_widget/widget:/widget",
            "-w",
            "/widget",
            "--user",
            "dev",
            "-e",
            "X=1",
            "img",
            "/bin/bash",
        ])
    );
}

#[test]
fn absent_container_is_created_from_the_base_image() {
    let c = linux_config(vec![]);
    let (mut rc, first) = Reconciler::new("acme/widget", &c, false);
    assert_eq!(first, EngineCall::ListAll("jail-acme-widget".to_string()));
    let steps = drive(&mut rc, vec![reply(true, "", ""), reply(true, "abc123\n", "")]);
    assert_eq!(
        steps,
        vec![
            Step::Call(EngineCall::Run(run_args(&c, "jail-acme-widget", IMAGE_NAME))),
            Step::Finished("abc123".to_string()),
        ]
    );
}

#[test]
fn running_container_is_kept_twice() {
    let c = linux_config(vec![]);
    for _ in 0..2 {
        let (mut rc, _) = Reconciler::new("acme/widget", &c, false);
        let steps = drive(&mut rc, vec![reply(true, "abc123\n", ""), reply(true, "abc123\n", "")]);
        assert_eq!(
            steps,
            vec![
                Step::Call(EngineCall::ListRunning("jail-acme-widget".to_string())),
                Step::Finished("abc123".to_string()),
            ]
        );
    }
}

#[test]
fn stopped_container_is_started() {
    let c = linux_config(vec![]);
    let (mut rc, _) = Reconciler::new("acme/widget", &c, false);
    let steps = drive(
        &mut rc,
        vec![reply(true, " abc123 \n", ""), reply(true, "", ""), reply(true, "", "")],
    );
    assert_eq!(
        steps,
        vec![
            Step::Call(EngineCall::ListRunning("jail-acme-widget".to_string())),
            Step::Call(EngineCall::Start("abc123".to_string())),
            Step::Finished("abc123".to_string()),
        ]
    );
}

#[test]
fn failed_start_is_reported() {
    let c = linux_config(vec![]);
    let (mut rc, _) = Reconciler::new("w", &c, false);
    let steps = drive(&mut rc, vec![reply(true, "id1", ""), reply(true, "", ""), reply(false, "", "boom")]);
    assert_eq!(steps[2], Step::Failed(EngineFailure::Start("boom".to_string())));
}

#[test]
fn failed_listing_is_reported() {
    let c = linux_config(vec![]);
    let (mut rc, _) = Reconciler::new("w", &c, false);
    let steps = drive(&mut rc, vec![reply(false, "", "no engine")]);
    assert_eq!(steps, vec![Step::Failed(EngineFailure::Inspect("no engine".to_string()))]);
}

#[test]
fn recreate_commits_removes_recreates_and_drops_image() {
    let c = linux_config(vec![8080, 3000]);
    let (mut rc, _) = Reconciler::new("acme/widget", &c, true);
    let steps = drive(
        &mut rc,
        vec![
            reply(true, "old1\n", ""),
            reply(true, "old1\n", ""),
            reply(true, "sha256:x", ""),
            reply(true, "old1", ""),
            reply(true, "new2\n", ""),
            reply(false, "", "image in use"),
        ],
    );
    let args = run_args(&c, "jail-acme-widget", "jail-temp-acme-widget");
    assert!(args.contains(&"/data/jails/acme_widget/widget:/widget".to_string()));
    assert!(args.contains(&"/widget".to_string()));
    assert_eq!(
        steps,
        vec![
            Step::Call(EngineCall::Stop("old1".to_string())),
            Step::Call(EngineCall::Commit("old1".to_string(), "jail-temp-acme-widget".to_string())),
            Step::Call(EngineCall::Remove("old1".to_string())),
            Step::Call(EngineCall::Run(args)),
            Step::Call(EngineCall::RemoveImage("jail-temp-acme-widget".to_string())),
            Step::Finished("new2".to_string()),
        ]
    );
}

#[test]
fn failed_commit_leaves_container_alone() {
    let c = linux_config(vec![8080]);
    let (mut rc, _) = Reconciler::new("acme/widget", &c, true);
    let steps = drive(
        &mut rc,
        vec![
            reply(true, "old1", ""),
            reply(true, "", ""),
            reply(false, "", "disk full"),
            reply(true, "", ""),
        ],
    );
    assert_eq!(steps[2], Step::Failed(EngineFailure::Commit("disk full".to_string())));
    assert_eq!(steps[3], Step::Failed(EngineFailure::AfterEnd));
    assert!(!steps.iter().any(|s| matches!(
        s,
        Step::Call(EngineCall::Remove(_)) | Step::Call(EngineCall::Run(_))
    )));
}

#[test]
fn failed_removal_and_creation_are_reported() {
    let c = linux_config(vec![]);
    let (mut rc, _) = Reconciler::new("w", &c, true);
    let steps = drive(
        &mut rc,
        vec![reply(true, "old", ""), reply(true, "", ""), reply(true, "", ""), reply(false, "", "busy")],
    );
    assert_eq!(steps[3], Step::Failed(EngineFailure::Remove("busy".to_string())));
    let (mut rc, _) = Reconciler::new("w", &c, false);
    let steps = drive(&mut rc, vec![reply(true, "", ""), reply(false, "", "no image")]);
    assert_eq!(steps[1], Step::Failed(EngineFailure::Create("no image".to_string())));
}

#[test]
fn engine_arguments_for_each_call() {
    assert_eq!(
        engine_args(&EngineCall::ListAll("jail-w".to_string())),
        strings(&["ps", "-aq", "-f", "name=^jail-w$"])
    );
    assert_eq!(
        engine_args(&EngineCall::ListRunning("jail-w".to_string())),
        strings(&["ps", "-q", "-f", "name=^jail-w$"])
    );
    assert_eq!(engine_args(&EngineCall::Start("i".to_string())), strings(&["start", "i"]));
    assert_eq!(engine_args(&EngineCall::Stop("i".to_string())), strings(&["stop", "i"]));
    assert_eq!(
        engine_args(&EngineCall::Commit("i".to_string(), "t".to_string())),
        strings(&["commit", "i", "t"])
    );
    assert_eq!(engine_args(&EngineCall::Remove("i".to_string())), strings(&["rm", "i"]));
    assert_eq!(engine_args(&EngineCall::RemoveImage("t".to_string())), strings(&["rmi", "t"]));
    assert_eq!(engine_args(&EngineCall::Run(strings(&["run", "x"]))), strings(&["run", "x"]));
}

#[test]
fn failed_stop_leaves_container_alone() {
    let c = linux_config(vec![8080]);
    let (mut rc, _) = Reconciler::new("acme/widget", &c, true);
    let steps = drive(&mut rc, vec![reply(true, "old1", ""), reply(false, "", "cannot stop")]);
    assert_eq!(
        steps,
        vec![
            Step::Call(EngineCall::Stop("old1".to_string())),
            Step::Failed(EngineFailure::Stop("cannot stop".to_string())),
        ]
    );
}

#[test]
fn listing_ids_are_trimmed_of_unicode_white_space() {
    let c = linux_config(vec![]);
    let (mut rc, _) = Reconciler::new("w", &c, false);
    let steps = drive(&mut rc, vec![reply(true, "\u{3000}id7\u{85}\n", ""), reply(true, "x", "")]);
    assert_eq!(steps[1], Step::Finished("id7".to_string()));
    let (mut rc, _) = Reconciler::new("w", &c, false);
    let steps = drive(&mut rc, vec![reply(true, " \t\n", "")]);
    assert!(matches!(steps[0], Step::Call(EngineCall::Run(_))));
}
