use tape::eject::{eject_tape_dir, ejected_tape, get_lastest_backup, plan_eject, restore_paths, RestoreProbe};
use tape::error::TapeError;
use tape::path::TapePath;
use tape::state::{current_tape_display, current_tape_record, recorded_tape, state_file_path};

fn p(s: &str) -> TapePath {
    TapePath::parse(s)
}

#[test]
fn record_has_the_state_file_layout() {
    let r = current_tape_record("my-rice", "my-rice");
    assert_eq!(
        r,
        "CURRENT-RICE: my-rice\nFILENAME: my-rice\n         // If your IQ is not too high, Do not edit this file\n         // If anything breaks, Do not blame me\n         "
    );
}

#[test]
fn record_reads_back() {
    let r = current_tape_record("Hypr Rice", "/home/u/rices/hypr");
    assert_eq!(recorded_tape(&r).unwrap(), "/home/u/rices/hypr");
    let r = current_tape_record("x", "  spaced  ");
    assert_eq!(recorded_tape(&r).unwrap(), "spaced");
}

#[test]
fn recorded_tape_takes_first_filename_line() {
    assert_eq!(recorded_tape("FILENAME: a\r\nFILENAME: b").unwrap(), "a");
    assert_eq!(recorded_tape("x\nFILENAME:    b   ").unwrap(), "b");
    assert!(recorded_tape("CURRENT-RICE: x\nFILE: y").is_none());
    assert!(recorded_tape("").is_none());
    assert!(recorded_tape(" FILENAME: x").is_none());
}

#[test]
fn current_display_splits_after_label() {
    let r = current_tape_record("rice", "rice");
    let (title, name) = current_tape_display(&r).unwrap();
    assert_eq!(title, "CURRENT-RICE: ");
    assert!(name.starts_with("rice\nFILENAME: rice"));
    assert!(current_tape_display("short").is_none());
    // byte 14 falls inside the two-byte 'é'
    assert!(current_tape_display("CURRENT-RICE:\u{e9}x").is_none());
}

#[test]
fn state_file_is_in_library() {
    assert_eq!(state_file_path(&p("/home/u/.local/share/tapes")).render(), "/home/u/.local/share/tapes/current-tape");
}

#[test]
fn backup_is_hidden_sibling() {
    assert_eq!(get_lastest_backup(&p("/home/u/.config/hypr")).render(), "/home/u/.config/.hypr.bak");
    assert_eq!(get_lastest_backup(&p("/")).render(), "/.config.bak");
    assert_eq!(get_lastest_backup(&p("/a/..")).render(), "/a/../.config.bak");
    let t = p("/home/u/.config/waybar");
    assert!(!get_lastest_backup(&t).same_as(&t));
}

#[test]
fn ejected_tape_reports_missing_and_corrupted_state() {
    assert!(matches!(ejected_tape(&None), Err(TapeError::NoActiveTape)));
    assert!(matches!(ejected_tape(&Some("garbage".to_string())), Err(TapeError::CorruptedState)));
    let state = current_tape_record("n", "my-rice");
    assert_eq!(ejected_tape(&Some(state)).unwrap(), "my-rice");
}

#[test]
fn eject_looks_in_library_or_at_rooted_path() {
    let lib = p("/home/u/.local/share/tapes");
    assert_eq!(eject_tape_dir(&lib, "my-rice").render(), "/home/u/.local/share/tapes/my-rice");
    assert_eq!(eject_tape_dir(&lib, "/opt/rice").render(), "/opt/rice");
}

#[test]
fn restore_paths_match_link_and_backup() {
    let (link, backup) = restore_paths(&p("/home/u/.config"), &p("hypr"));
    assert_eq!(link.render(), "/home/u/.config/hypr");
    assert_eq!(backup.render(), "/home/u/.config/.hypr.bak");
}

#[test]
fn eject_finds_tape_inserted_by_name_or_path() {
    let lib = p("/home/u/.local/share/tapes");
    let by_name = tape::insert::recorded_location(&Some("rice".into()), &None, &p("/ignored"));
    let state = current_tape_record("Rice", &by_name);
    let found = ejected_tape(&Some(state)).unwrap();
    assert_eq!(eject_tape_dir(&lib, &found).render(), "/home/u/.local/share/tapes/rice");
    let dir = p("/home/u/src/my-rice");
    let by_path = tape::insert::recorded_location(&None, &Some(".".into()), &dir);
    let state = current_tape_record("Rice", &by_path);
    let found = ejected_tape(&Some(state)).unwrap();
    assert!(eject_tape_dir(&lib, &found).same_as(&dir));
}

fn restore_probe(target: &str, link_target: Option<&str>, link_present: bool, backup_present: bool) -> RestoreProbe {
    let (link, backup) = restore_paths(&p("/h/.config"), &p(target));
    RestoreProbe { link, backup, link_target: link_target.map(p), link_present, backup_present }
}

#[test]
fn plan_eject_removes_only_own_links_and_never_overwrites() {
    let tape = p("/t/rice");
    let probes = vec![
        restore_probe("a", Some("/t/rice/.config/a"), true, true),
        restore_probe("b", Some("/elsewhere/b"), true, true),
        restore_probe("c", None, true, true),
        restore_probe("d", None, false, true),
        restore_probe("e", Some("/t/rice/e"), true, false),
    ];
    let steps = plan_eject(&tape, &probes);
    assert_eq!(steps.len(), 5);
    assert!(steps[0].remove_link);
    assert_eq!(steps[0].restore_from.as_ref().unwrap().render(), "/h/.config/.a.bak");
    assert!(!steps[1].remove_link && steps[1].restore_from.is_none());
    assert!(!steps[2].remove_link && steps[2].restore_from.is_none());
    assert!(!steps[3].remove_link);
    assert_eq!(steps[3].restore_from.as_ref().unwrap().render(), "/h/.config/.d.bak");
    assert!(steps[4].remove_link && steps[4].restore_from.is_none());
}
