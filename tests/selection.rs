use jail::error::JailError;
use jail::registry::{
    filter_jails, get_jail_names, matches_lowered, pick_candidate, resolve_selection,
    DirEntryInfo, Selection,
};

fn names(list: &[&str]) -> Vec<String> {
    list.iter().map(|s| s.to_string()).collect()
}

#[test]
fn filter_ignores_case_and_matches_either_half() {
    let all = names(&["Acme/Widget", "other/thing", "widgetco"]);
    assert_eq!(filter_jails(&all, "WID"), names(&["Acme/Widget", "widgetco"]));
    assert_eq!(filter_jails(&all, "acme"), names(&["Acme/Widget"]));
    assert_eq!(filter_jails(&all, "THING"), names(&["other/thing"]));
}

#[test]
fn filter_full_prefix_across_the_slash() {
    let all = names(&["acme/widget", "acme-two"]);
    assert_eq!(filter_jails(&all, "acme/w"), names(&["acme/widget"]));
    assert_eq!(filter_jails(&all, "acme"), names(&["acme/widget", "acme-two"]));
}

#[test]
fn filter_splits_at_first_slash() {
    let all = names(&["a/b/c"]);
    assert_eq!(filter_jails(&all, "b"), names(&["a/b/c"]));
    assert_eq!(filter_jails(&all, "c"), Vec::<String>::new());
}

#[test]
fn filter_without_match_is_empty() {
    let all = names(&["acme/widget"]);
    assert_eq!(filter_jails(&all, "zzz"), Vec::<String>::new());
}

#[test]
fn matches_lowered_halves() {
    assert!(matches_lowered("acme/widget", "wid"));
    assert!(matches_lowered("acme/widget", ""));
    assert!(!matches_lowered("acme/widget", "get"));
    assert!(!matches_lowered("widget", "x"));
}

#[test]
fn resolve_without_jails_fails() {
    assert_eq!(resolve_selection(&Vec::new(), Some("x")), Err(JailError::NoJails));
}

#[test]
fn resolve_without_filter_offers_all() {
    let all = names(&["b/one", "a/two"]);
    assert_eq!(resolve_selection(&all, None), Ok(Selection::Choose(all.clone())));
    assert_eq!(resolve_selection(&all, Some("")), Ok(Selection::Choose(all.clone())));
}

#[test]
fn resolve_with_unmatched_filter_fails() {
    let all = names(&["acme/widget"]);
    assert_eq!(
        resolve_selection(&all, Some("zzz")),
        Err(JailError::NoMatch("zzz".to_string()))
    );
}

#[test]
fn resolve_exact_name_skips_the_prompt() {
    let all = names(&["acme/widget", "acme/widget-two"]);
    assert_eq!(
        resolve_selection(&all, Some("ACME/Widget")),
        Ok(Selection::Exact("acme/widget".to_string()))
    );
}

#[test]
fn resolve_single_partial_match_is_still_offered() {
    let all = names(&["acme/widget", "other/thing"]);
    assert_eq!(
        resolve_selection(&all, Some("wid")),
        Ok(Selection::Choose(names(&["acme/widget"])))
    );
}

#[test]
fn pick_candidate_by_index() {
    let all = names(&["a", "b"]);
    assert_eq!(pick_candidate(&all, 1), Some("b".to_string()));
    assert_eq!(pick_candidate(&all, 2), None);
}

#[test]
fn jail_names_skip_files_and_bad_records() {
    let entries = vec![
        DirEntryInfo { dir_name: "acme_widget".to_string(), is_dir: true, has_valid_record: true },
        DirEntryInfo { dir_name: "notes.txt".to_string(), is_dir: false, has_valid_record: false },
        DirEntryInfo { dir_name: "broken".to_string(), is_dir: true, has_valid_record: false },
        DirEntryInfo { dir_name: "solo".to_string(), is_dir: true, has_valid_record: true },
    ];
    assert_eq!(get_jail_names(&entries), names(&["acme/widget", "solo"]));
}
