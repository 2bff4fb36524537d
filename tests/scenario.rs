use jail::lifecycle::{enter, plan_clone, removal_plan, JailMetadata};
use jail::names::jail_dir_name;
use jail::reconcile::{EngineCall, Reply, Step};
use jail::registry::{get_jail_names, resolve_selection, DirEntryInfo, Selection};
use jail::runtime::Runtime;

#[test]
fn clone_list_enter_remove_acme_widget() {
    let source = "https://github.com/acme/widget.git";
    let plan = plan_clone("/data/jails", source, None);
    assert_eq!(plan.name, "acme/widget");
    assert_eq!(plan.dir, "/data/jails/acme_widget");

    // Listing reads the jail's directory back under its name.
    let entries = vec![DirEntryInfo {
        dir_name: jail_dir_name(&plan.name),
        is_dir: true,
        has_valid_record: true,
    }];
    let names = get_jail_names(&entries);
    assert_eq!(names, vec!["acme/widget".to_string()]);

    // Entering by the full name needs no prompt.
    let chosen = resolve_selection(&names, Some("acme/widget"));
    assert_eq!(chosen, Ok(Selection::Exact("acme/widget".to_string())));

    let mut meta = JailMetadata::new(
        source,
        Runtime::Podman,
        vec![],
        plan.workspace_name.clone(),
        "0".to_string(),
    );
    let mut entered = enter("acme/widget", &plan.dir, &mut meta, &vec![], false, None);
    assert!(!entered.save_record);
    let stopped = Reply { ok: true, stdout: "c0ffee\n".to_string(), stderr: String::new() };
    let not_running = Reply { ok: true, stdout: String::new(), stderr: String::new() };
    let started = Reply { ok: true, stdout: String::new(), stderr: String::new() };
    assert_eq!(
        entered.reconciler.step(&stopped),
        Step::Call(EngineCall::ListRunning("jail-acme-widget".to_string()))
    );
    assert_eq!(
        entered.reconciler.step(&not_running),
        Step::Call(EngineCall::Start("c0ffee".to_string()))
    );
    assert_eq!(entered.reconciler.step(&started), Step::Finished("c0ffee".to_string()));

    // Removal stops and removes the container, whatever those do, and deletes the directory.
    let removal = removal_plan("/data/jails", "acme/widget");
    assert_eq!(removal.stop, EngineCall::Stop("jail-acme-widget".to_string()));
    assert_eq!(removal.remove, EngineCall::Remove("jail-acme-widget".to_string()));
    assert_eq!(removal.jail_dir, plan.dir);
}
