use std::collections::HashMap;
use tape::error::TapeError;
use tape::insert::{
    check_dependecies, check_insert_source, get_available_backup_path_local, get_source_path,
    check_manifest, link_paths, locate_local_dir, plan_insert, plan_link, recorded_display_name,
    recorded_location, resolve_targets, tape_identifier, undo_insert, undo_progress,
    target_scan_dir, TargetProbe,
};
use tape::manifest::{
    check_dependencies, dependency_probe, eject_hook_commands, insert_hook_commands,
    known_tape_entry, probe_verdict, Dependecies, Hooks, TapeInfo, TapeManifest,
};
use tape::path::TapePath;
use tape::show::{
    display_path, listed_entries, show_all_tapes, show_specific_tape, specific_tape_path,
    tape_properties,
};

fn p(s: &str) -> TapePath {
    TapePath::parse(s)
}

fn manifest(binaries: Option<Vec<&str>>, hooks: Option<(Vec<&str>, Vec<&str>)>) -> TapeManifest {
    TapeManifest {
        tape: TapeInfo {
            name: "my-rice".to_string(),
            version: "0.1.0".to_string(),
            desc: "My setup".to_string(),
        },
        dependencies: Some(Dependecies {
            binaries: binaries.map(|b| b.into_iter().map(String::from).collect()),
        }),
        targets: Some(HashMap::new()),
        hooks: hooks.map(|(i, e)| Hooks {
            insert: i.into_iter().map(String::from).collect(),
            eject: e.into_iter().map(String::from).collect(),
        }),
    }
}

#[test]
fn library_is_tapes_in_local_data() {
    assert_eq!(locate_local_dir(&Some(p("/home/u/.local/share"))).unwrap().render(), "/home/u/.local/share/tapes");
    assert!(matches!(locate_local_dir(&None), Err(TapeError::NoLocalDir)));
}

#[test]
fn source_path_prefers_path_then_name() {
    let data = Some(p("/home/u/.local/share"));
    let name = Some("rice".to_string());
    let path = Some("./here".to_string());
    assert_eq!(get_source_path(&name, &path, &data).unwrap().render(), "./here");
    assert_eq!(get_source_path(&name, &None, &data).unwrap().render(), "/home/u/.local/share/tapes/rice");
    assert_eq!(get_source_path(&None, &path, &None).unwrap().render(), "./here");
    assert!(matches!(get_source_path(&None, &None, &data), Err(TapeError::NoTapeGiven)));
    assert!(matches!(get_source_path(&name, &None, &None), Err(TapeError::NoLocalDir)));
    let here = Some(".".to_string());
    assert_eq!(get_source_path(&here, &None, &None).unwrap().render(), ".");
}

#[test]
fn recorded_location_is_name_or_full_path() {
    let dir = p("/home/u/rices/hypr");
    assert_eq!(recorded_location(&Some("rice".into()), &None, &dir), "rice");
    assert_eq!(recorded_location(&Some(".".into()), &None, &dir), "/home/u/rices/hypr");
    assert_eq!(recorded_location(&None, &Some("./hypr".into()), &dir), "/home/u/rices/hypr");
    assert_eq!(recorded_location(&Some("rice".into()), &Some("./hypr".into()), &dir), "/home/u/rices/hypr");
}

#[test]
fn identifier_is_name_or_path() {
    assert_eq!(tape_identifier(&Some("rice".into()), &Some("/x".into())), "rice");
    assert_eq!(tape_identifier(&None, &Some("./x".into())), "./x");
}

#[test]
fn insert_source_must_exist_and_not_be_library() {
    let lib = p("/l/tapes");
    assert!(check_insert_source("r", &p("/l/tapes/r"), &lib, true).is_ok());
    assert!(matches!(check_insert_source("r", &p("/l/tapes/r"), &lib, false), Err(TapeError::TapeNotFound { .. })));
    assert!(matches!(check_insert_source(".", &p("/l/tapes/."), &lib, true), Err(TapeError::TapeNotFound { .. })));
}

#[test]
fn dependencies_come_from_manifest() {
    assert_eq!(check_dependecies(&None).len(), 0);
    let m = manifest(Some(vec!["hyprland", "waybar"]), None);
    assert_eq!(check_dependencies(&m), vec!["hyprland", "waybar"]);
    assert_eq!(check_dependecies(&Some(m)), vec!["hyprland", "waybar"]);
    let m = Some(manifest(None, None));
    assert_eq!(check_dependecies(&m).len(), 0);
    let mut bare = manifest(None, None);
    bare.dependencies = None;
    assert_eq!(check_dependencies(&bare).len(), 0);
    assert_eq!(dependency_probe("foot"), "command -v foot");
    assert!(probe_verdict("foot", &b"/usr/bin/foot\n".to_vec()).is_ok());
    assert!(matches!(probe_verdict("foot", &Vec::new()), Err(TapeError::MissingDependency(n)) if n == "foot"));
}

#[test]
fn hooks_selection() {
    let m = manifest(None, Some((vec!["echo in"], vec!["echo out"])));
    assert_eq!(insert_hook_commands(&m), vec!["echo in"]);
    assert_eq!(eject_hook_commands(&m), vec!["echo out"]);
    let m = manifest(None, Some((vec![], vec!["echo out"])));
    assert_eq!(eject_hook_commands(&m), vec!["echo out"]);
    assert_eq!(insert_hook_commands(&m).len(), 0);
    let m = manifest(None, None);
    assert_eq!(insert_hook_commands(&m).len(), 0);
    assert_eq!(eject_hook_commands(&m).len(), 0);
}

#[test]
fn known_tape_entry_prefixes_version() {
    let m = manifest(None, None);
    let (n, v, d) = known_tape_entry(&m);
    assert_eq!((n.as_str(), v.as_str(), d.as_str()), ("my-rice", "v0.1.0", "My setup"));
}

#[test]
fn targets_skip_manifest_git_and_readme() {
    let names: Vec<String> = ["hypr", "tape.toml", ".git", "waybar", "README.md", "README.MD"]
        .iter()
        .map(|s| s.to_string())
        .collect();
    let t: Vec<String> = resolve_targets(&names).iter().map(|t| t.render()).collect();
    assert_eq!(t, vec!["hypr", "waybar", "README.MD"]);
    assert_eq!(target_scan_dir(&p("/t"), true).render(), "/t/.config");
    assert_eq!(target_scan_dir(&p("/t"), false).render(), "/t");
}

#[test]
fn link_paths_and_backup_slot() {
    let lp = link_paths(&p("/t"), &p("/h/.config"), &p("hypr"));
    assert_eq!(lp.in_config.render(), "/t/.config/hypr");
    assert_eq!(lp.direct.render(), "/t/hypr");
    assert_eq!(lp.dest.render(), "/h/.config/hypr");
    assert_eq!(lp.backup.render(), "/h/.config/.hypr.bak");
    assert_eq!(get_available_backup_path_local(&p("/h/.config/hypr"), false).unwrap().render(), "/h/.config/.hypr.bak");
    assert!(matches!(get_available_backup_path_local(&p("/h/.config/hypr"), true), Err(TapeError::BackupExists)));
}

#[test]
fn plan_link_cases() {
    let lp = link_paths(&p("/t"), &p("/h/.config"), &p("hypr"));
    assert!(plan_link(&lp, false, false, true, true).unwrap().is_none());
    let s = plan_link(&lp, true, true, true, false).unwrap().unwrap();
    assert_eq!(s.source.render(), "/t/.config/hypr");
    assert_eq!(s.dest.render(), "/h/.config/hypr");
    assert_eq!(s.backup.unwrap().render(), "/h/.config/.hypr.bak");
    let s = plan_link(&lp, false, true, false, true).unwrap().unwrap();
    assert_eq!(s.source.render(), "/t/hypr");
    assert!(s.backup.is_none());
    assert!(matches!(plan_link(&lp, false, true, true, true), Err(TapeError::BackupExists)));
}

fn probe(target: &str, present: bool, dest: bool, taken: bool) -> TargetProbe {
    TargetProbe {
        paths: link_paths(&p("/t"), &p("/h/.config"), &p(target)),
        in_config_exists: present,
        direct_exists: false,
        dest_exists: dest,
        backup_taken: taken,
    }
}

#[test]
fn plan_insert_is_all_or_nothing() {
    let ok = vec![probe("a", true, true, false), probe("b", false, true, true), probe("c", true, false, true)];
    let steps = plan_insert(&ok).unwrap();
    assert_eq!(steps.len(), 2);
    assert_eq!(steps[0].dest.render(), "/h/.config/a");
    assert!(steps[1].backup.is_none());
    let blocked = vec![probe("a", true, true, false), probe("b", true, true, true)];
    assert!(matches!(plan_insert(&blocked), Err(TapeError::BackupExists)));
}

#[test]
fn show_paths_and_properties() {
    let home = Some(p("/home/u"));
    assert_eq!(display_path(&p("/home/u/rices/x"), &home).render(), "rices/x");
    assert_eq!(display_path(&p("/opt/x"), &home).render(), "/opt/x");
    assert_eq!(display_path(&p("/opt/x"), &None).render(), "/opt/x");
    let entries = vec![(p("/t/.config"), false), (p("/t/tape.toml"), true), (p("/other/z"), false)];
    let listed: Vec<String> = listed_entries(&p("/t"), &entries).iter().map(|e| e.render()).collect();
    assert_eq!(listed, vec![".config"]);
    let m = manifest(Some(vec!["foot"]), Some((vec!["a"], vec![])));
    let props = tape_properties(&m, &p("/home/u/.local/share/tapes/my-rice"), &home, &entries);
    assert_eq!(props.location.render(), ".local/share/tapes/my-rice");
    assert_eq!(props.dependencies.unwrap(), vec!["foot"]);
    assert_eq!(props.hooks.unwrap().insert, vec!["a"]);
    assert_eq!(props.name, "my-rice");
}

#[test]
fn show_all_describes_each_tape_from_its_own_directory() {
    let home = Some(p("/home/u"));
    let tapes = vec![
        (manifest(None, None), p("/home/u/.local/share/tapes/a")),
        (manifest(Some(vec!["foot"]), None), p("/home/u/.local/share/tapes/b")),
    ];
    let entries = vec![
        vec![(p("/home/u/.local/share/tapes/a/.config"), false)],
        vec![(p("/home/u/.local/share/tapes/b/tape.toml"), true), (p("/home/u/.local/share/tapes/b/hypr"), false)],
    ];
    let shown = show_all_tapes(&tapes, &home, &entries);
    assert_eq!(shown.len(), 2);
    assert_eq!(shown[0].location.render(), ".local/share/tapes/a");
    assert_eq!(shown[1].location.render(), ".local/share/tapes/b");
    let files: Vec<String> = shown[0].entries.iter().map(|e| e.render()).collect();
    assert_eq!(files, vec![".config"]);
    let files: Vec<String> = shown[1].entries.iter().map(|e| e.render()).collect();
    assert_eq!(files, vec!["hypr"]);
    assert_eq!(shown[1].dependencies.as_ref().unwrap(), &vec!["foot".to_string()]);
}

#[test]
fn undo_insert_reverses_completed_links() {
    let lp = |t: &str| link_paths(&p("/t"), &p("/h/.config"), &p(t));
    let steps = vec![
        plan_link(&lp("a"), true, false, true, false).unwrap().unwrap(),
        plan_link(&lp("b"), true, false, false, false).unwrap().unwrap(),
        plan_link(&lp("c"), true, false, true, false).unwrap().unwrap(),
    ];
    let undo = undo_insert(&steps, 2, true);
    assert_eq!(undo.len(), 3);
    assert_eq!(undo[0].link.render(), "/h/.config/c");
    assert!(!undo[0].remove_link);
    assert_eq!(undo[0].restore_from.as_ref().unwrap().render(), "/h/.config/.c.bak");
    assert_eq!(undo[1].link.render(), "/h/.config/b");
    assert!(undo[1].remove_link);
    assert!(undo[1].restore_from.is_none());
    assert_eq!(undo[2].link.render(), "/h/.config/a");
    assert_eq!(undo[2].restore_from.as_ref().unwrap().render(), "/h/.config/.a.bak");
    assert_eq!(undo_insert(&steps, 0, false).len(), 0);
    let undo = undo_insert(&steps, 2, false);
    assert_eq!(undo.len(), 2);
    assert_eq!(undo[0].link.render(), "/h/.config/b");
    assert!(undo[0].remove_link);
    assert_eq!(undo[1].link.render(), "/h/.config/a");
}

#[test]
fn manifest_presence_and_display_name() {
    assert!(matches!(check_manifest(false, None), Ok(None)));
    assert!(matches!(check_manifest(true, None), Err(TapeError::InvalidManifest)));
    let m = check_manifest(true, Some(manifest(None, None))).unwrap().unwrap();
    assert_eq!(m.tape.name, "my-rice");
    assert_eq!(recorded_display_name(&Some(m), "./x"), "my-rice");
    assert_eq!(recorded_display_name(&None, "./x"), "./x");
}

#[test]
fn show_specific_tape_cases() {
    let lib = p("/home/u/.local/share/tapes");
    let home = Some(p("/home/u"));
    assert_eq!(specific_tape_path("rice", &lib).render(), "/home/u/.local/share/tapes/rice");
    assert_eq!(show_specific_tape("rice", &lib, true, &home).unwrap().render(), "/home/u/.local/share/tapes/rice");
    match show_specific_tape("rice", &lib, false, &home) {
        Err(TapeError::TapeNotFoundAt { name, location }) => {
            assert_eq!(name, "rice");
            assert_eq!(location.render(), ".local/share/tapes");
        }
        _ => panic!("expected TapeNotFoundAt"),
    }
    assert!(matches!(show_specific_tape(".", &lib, true, &home), Err(TapeError::TapeNotFoundAt { .. })));
    assert!(matches!(show_specific_tape("rice", &lib, false, &None), Err(TapeError::NoHomeDir)));
    assert!(matches!(show_specific_tape("rice", &lib, false, &Some(p("/root"))), Err(TapeError::NotUnderHome)));
}

#[test]
fn undo_progress_counts_made_links() {
    assert_eq!(undo_progress(2, true, true), (3, false));
    assert_eq!(undo_progress(2, true, false), (2, true));
    assert_eq!(undo_progress(0, false, false), (0, false));
}

#[test]
fn error_messages() {
    assert_eq!(TapeError::NoActiveTape.message(), "No active tape nothing to eject");
    assert_eq!(TapeError::BackupExists.message(), "Backup of config already found");
    assert_eq!(TapeError::MissingDependency("foot".into()).message(), "Dependency `foot` not found");
    let e = TapeError::TapeNotFoundAt { name: "rice".into(), location: p(".local/share/tapes") };
    assert_eq!(e.message(), "Tape 'rice' does not exist at ~/.local/share/tapes");
    let e = TapeError::TapeNotFound { identifier: "rice".into(), source: p("/x") };
    assert_eq!(e.message(), "Tape 'rice' does not exist at ");
    assert_eq!(TapeError::NoTapeGiven.message(), "Must provide either a tape name or --path");
}
