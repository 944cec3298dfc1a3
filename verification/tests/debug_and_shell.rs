use tape::debug::{
    dependency, file_entry, hook, info, is_debug, missing_dep, set_debug, status_error, status_ok,
    status_ok_fields, status_ok_kv, DebugMode,
};
use tape::error::TapeError;
use tape::path::TapePath;
use tape::shell::{command_exit_code, link_points_to_library, should_run_command, tapes_link_path};

#[test]
fn debug_lines_only_in_debug_mode() {
    let mut m = DebugMode::new(false);
    assert!(!is_debug(&m));
    assert!(status_ok(&m, "x").is_none());
    assert!(missing_dep(&m, "x").is_none());
    set_debug(&mut m, true);
    assert!(is_debug(&m));
    assert_eq!(status_ok(&m, "restore_configs").unwrap(), "status=ok action=restore_configs");
    assert_eq!(status_ok_kv(&m, "eject", "tape", "rice").unwrap(), "status=ok action=eject tape=rice");
    let fields = vec![("source".to_string(), "a".to_string()), ("dest".to_string(), "b".to_string())];
    assert_eq!(status_ok_fields(&m, "restore", &fields).unwrap(), "status=ok action=restore source=a dest=b");
    assert_eq!(status_ok_fields(&m, "restore", &Vec::new()).unwrap(), "status=ok action=restore ");
    assert_eq!(status_error(&m, "boom").unwrap(), "status=error message=boom");
    assert_eq!(hook(&m, "echo hi").unwrap(), "status=ok action=hook command=echo hi");
    assert_eq!(info(&m, "k", "v").unwrap(), "k=v");
    assert_eq!(dependency(&m, "foot").unwrap(), "status=ok action=dependency name=foot");
    assert_eq!(file_entry(&m, "hypr").unwrap(), "status=ok action=file name=hypr");
    assert_eq!(missing_dep(&m, "foot").unwrap(), "status=error action=missing_dependency name=foot");
}

#[test]
fn blank_commands_are_skipped() {
    assert!(!should_run_command(""));
    assert!(!should_run_command(" \t\n"));
    assert!(should_run_command(" echo hi "));
}

#[test]
fn exit_code_defaults_to_minus_one() {
    assert_eq!(command_exit_code(Some(3)), 3);
    assert_eq!(command_exit_code(None), -1);
}

#[test]
fn tapes_shortcut() {
    assert_eq!(tapes_link_path(&Some(TapePath::parse("/home/u"))).unwrap().render(), "/home/u/.tapes");
    assert!(matches!(tapes_link_path(&None), Err(TapeError::NoHomeDir)));
    assert!(link_points_to_library("/home/u/.local/share/tapes"));
    let made = tape::insert::locate_local_dir(&Some(TapePath::parse("/home/u/.local/share"))).unwrap();
    assert!(link_points_to_library(&made.render()));
    assert!(!link_points_to_library("/somewhere/else"));
}

