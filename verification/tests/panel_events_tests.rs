use fcd::panel_events::{
    child_toward, dir_created_selection, select_file_plan, MountEvent, MountReaction, MountRequest, SelectPlan,
};

#[test]
fn mounted_archive_is_entered() {
    let mut r = MountRequest::Implicit("/w/a.zip".to_string());
    assert_eq!(
        r.on_event(&MountEvent::Mounted("/w/b.zip".to_string(), "/tmp/2".to_string())),
        MountReaction::Nothing
    );
    assert_eq!(r, MountRequest::Implicit("/w/a.zip".to_string()));
    assert_eq!(
        r.on_event(&MountEvent::Mounted("/w/a.zip".to_string(), "/tmp/1".to_string())),
        MountReaction::Chdir("/tmp/1".to_string())
    );
    assert_eq!(r, MountRequest::Idle);
}

#[test]
fn failed_mounts_show_an_error_or_open_the_file() {
    let mut r = MountRequest::Explicit("/w/a.zip".to_string());
    assert_eq!(
        r.on_event(&MountEvent::Failed("/w/a.zip".to_string(), "bad".to_string())),
        MountReaction::Error("bad".to_string())
    );
    let mut r = MountRequest::Implicit("/w/a.zip".to_string());
    assert_eq!(
        r.on_event(&MountEvent::Failed("/w//a.zip".to_string(), "bad".to_string())),
        MountReaction::OpenFile("/w//a.zip".to_string())
    );
    let mut r = MountRequest::Explicit("/w/a.zip".to_string());
    assert_eq!(r.on_event(&MountEvent::Cancelled("/w/a.zip".to_string())), MountReaction::Nothing);
    assert_eq!(r, MountRequest::Idle);
    let mut r = MountRequest::Idle;
    assert_eq!(r.on_event(&MountEvent::Cancelled("/w/a.zip".to_string())), MountReaction::Nothing);
}

#[test]
fn created_directories_select_the_entry_they_lie_in() {
    assert_eq!(child_toward("/w/a/b/c", "/w"), Some("/w/a".to_string()));
    assert_eq!(child_toward("/w/a", "/w"), Some("/w/a".to_string()));
    assert_eq!(child_toward("/x/a", "/w"), None);
    assert_eq!(dir_created_selection(true, "/w/n/m", "/w", Some("/w/old".to_string())), Some("/w/n".to_string()));
    assert_eq!(dir_created_selection(true, "/x/n", "/w", Some("/w/old".to_string())), Some("/w/old".to_string()));
    assert_eq!(dir_created_selection(false, "/w/n", "/w", None), None);
}

#[test]
fn picked_files_are_selected_where_they_are() {
    assert_eq!(select_file_plan(false, "/w/f", "/w"), SelectPlan::Ignore);
    assert_eq!(select_file_plan(true, "/w/f", "/w"), SelectPlan::Select("/w/f".to_string()));
    assert_eq!(select_file_plan(true, "/v/f", "/w"), SelectPlan::Chdir("/v".to_string(), "/v/f".to_string()));
    assert_eq!(select_file_plan(true, "/", "/w"), SelectPlan::NoParent);
}
