use jail::config::jails_dir;
use jail::names::{
    container_name, derive_name, extract_repo_name, hex_encode, jail_dir_name, jail_path, join,
    name_of_dir, sanitize_container_name, temp_image_name,
};

#[test]
fn derive_name_gitlab_with_trailing_slash() {
    assert_eq!(derive_name("https://gitlab.com/group/proj/"), "group/proj");
}

#[test]
fn derive_name_ssh_owner_after_last_colon() {
    assert_eq!(derive_name("ssh://git@github.com:acme/widget.git"), "acme/widget");
}

#[test]
fn derive_name_acme_widget_scenario() {
    assert_eq!(derive_name("https://github.com/acme/widget.git"), "acme/widget");
    assert_eq!(derive_name("git@github.com:acme/widget.git"), "acme/widget");
    assert_eq!(derive_name("https://github.com/acme/widget/"), "acme/widget");
}

#[test]
fn derive_name_repeated_git_suffix_is_stripped() {
    assert_eq!(derive_name("https://github.com/acme/widget.git.git"), "acme/widget");
}

#[test]
fn derive_name_git_suffix_without_slash_uses_file_name() {
    assert_eq!(derive_name("repo.git"), "repo.git");
}

#[test]
fn derive_name_local_path_trailing_parts() {
    assert_eq!(derive_name("/home/u/proj/"), "proj");
    assert_eq!(derive_name("/home/u/proj/."), "proj");
    assert_eq!(derive_name("proj"), "proj");
}

#[test]
fn derive_name_fallback_replaces_separators() {
    assert_eq!(derive_name("a:b@c/.."), "a-b-c-..");
    assert_eq!(derive_name("/"), "-");
    assert_eq!(derive_name(""), "");
}

#[test]
fn sanitize_is_idempotent() {
    let once = sanitize_container_name("a/b:c@d e");
    assert_eq!(once, "a-b_c_d_e");
    assert_eq!(sanitize_container_name(&once), once);
}

#[test]
fn container_and_temp_image_names() {
    assert_eq!(container_name("acme/widget"), "jail-acme-widget");
    assert_eq!(temp_image_name("acme/widget"), "jail-temp-acme-widget");
    assert_eq!(container_name("my box@home"), "jail-my_box_home");
}

#[test]
fn repo_name_is_last_part() {
    assert_eq!(extract_repo_name("KMPARDS/timeally-react"), "timeally-react");
    assert_eq!(extract_repo_name("plain"), "plain");
    assert_eq!(extract_repo_name("a/b/c"), "c");
}

#[test]
fn directory_names_round_trip_slashes() {
    assert_eq!(jail_dir_name("acme/widget"), "acme_widget");
    assert_eq!(name_of_dir("acme_widget"), "acme/widget");
    assert_eq!(name_of_dir(&jail_dir_name("acme/widget")), "acme/widget");
}

#[test]
fn paths_are_joined_with_one_separator() {
    assert_eq!(jail_path("/data/jails", "acme/widget"), "/data/jails/acme_widget");
    assert_eq!(jail_path("/data/jails/", "acme/widget"), "/data/jails/acme_widget");
    assert_eq!(join("", "x"), "x");
    assert_eq!(jails_dir("/home/u/.local/share/jail"), "/home/u/.local/share/jail/jails");
}

#[test]
fn hex_encoding_of_bytes() {
    assert_eq!(hex_encode(""), "");
    assert_eq!(hex_encode("\u{e9}"), "c3a9");
    assert_eq!(hex_encode("\u{f}z"), "0f7a");
}

#[test]
fn derive_name_strips_git_then_slash_together() {
    assert_eq!(derive_name("https://github.com/acme/widget.git/"), "acme/widget");
    assert_eq!(derive_name("git@github.com:acme/widget.git/"), "acme/widget");
}
