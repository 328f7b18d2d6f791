use lg_ultragear::paths::{join_is_modelled, root_is_modelled};
use lg_ultragear::paths::{
    ab_compare_state_path, automation_config_path, join_path, diagnostics_log_path, guardrails_path,
    recovery_state_path, snapshots_dir, state_dir, windows_color_directory,
};

#[test]
fn state_files_live_in_the_state_directory() {
    let pd = Some(r"C:\ProgramData");
    let state = r"C:\ProgramData\LG-UltraGear-Monitor\state";
    assert_eq!(state_dir(pd, '\\'), state);
    assert_eq!(snapshots_dir(pd, '\\'), format!(r"{}\snapshots", state));
    assert_eq!(diagnostics_log_path(pd, '\\'), format!(r"{}\diagnostics.log", state));
    assert_eq!(guardrails_path(pd, '\\'), format!(r"{}\ddc_guardrails.toml", state));
    assert_eq!(recovery_state_path(pd, '\\'), format!(r"{}\last_good.toml", state));
    assert_eq!(ab_compare_state_path(pd, '\\'), format!(r"{}\ab_compare.toml", state));
    assert_eq!(automation_config_path(pd, '\\'), format!(r"{}\automation.toml", state));
}

#[test]
fn state_directory_defaults_to_program_data() {
    assert_eq!(state_dir(None, '\\'), r"C:\ProgramData\LG-UltraGear-Monitor\state");
}

#[test]
fn trailing_separator_is_not_doubled() {
    assert_eq!(state_dir(Some(r"D:\"), '\\'), r"D:\LG-UltraGear-Monitor\state");
    assert_eq!(state_dir(Some("/data/"), '/'), "/data/LG-UltraGear-Monitor/state");
}

#[test]
fn bare_drive_gets_no_separator() {
    assert_eq!(state_dir(Some("E:"), '\\'), r"E:LG-UltraGear-Monitor\state");
}

#[test]
fn color_directory_follows_windir() {
    assert_eq!(
        windows_color_directory(None, '\\'),
        r"C:\Windows\System32\spool\drivers\color"
    );
    assert_eq!(
        windows_color_directory(Some(r"D:\Win"), '\\'),
        r"D:\Win\System32\spool\drivers\color"
    );
}

#[test]
fn a_rooted_name_replaces_the_base() {
    assert_eq!(join_path("/var/lib", '/', "/etc/x"), "/etc/x");
    assert_eq!(join_path("data", '\\', "\\root\\x"), "\\root\\x");
    assert_eq!(join_path("data", '\\', "/root"), "/root");
}

#[test]
fn a_rooted_name_keeps_the_base_drive_on_windows() {
    assert_eq!(join_path("C:\\Data\\x", '\\', "\\root"), "C:\\root");
    assert_eq!(join_path("C:", '\\', "\\root"), "C:\\root");
}

#[test]
fn a_name_with_a_drive_replaces_the_base_on_windows() {
    assert_eq!(join_path("C:\\Data", '\\', "E:y"), "E:y");
    assert_eq!(join_path("C:\\Data", '\\', "E:\\y"), "E:\\y");
    // Not a drive: a digit, or on Unix.
    assert_eq!(join_path("C:\\Data", '\\', "1:y"), "C:\\Data\\1:y");
    assert_eq!(join_path("/data", '/', "E:y"), "/data/E:y");
}

#[test]
fn a_backslash_name_is_relative_on_unix() {
    assert_eq!(join_path("/data", '/', "\\x"), "/data/\\x");
}

#[test]
fn a_rooted_snapshot_id_replaces_the_directory() {
    assert_eq!(lg_ultragear::snapshots::snapshot_meta_path(Some("/var/lib"), '/', "/tmp/x"), "/tmp/x.toml");
}

#[test]
fn state_files_under_a_unc_root() {
    assert_eq!(
        diagnostics_log_path(Some(r"\\server\share"), '\\'),
        r"\\server\share\LG-UltraGear-Monitor\state\diagnostics.log"
    );
    assert_eq!(snapshots_dir(Some("//server/share/"), '\\'), r"//server/share/LG-UltraGear-Monitor\state\snapshots");
}

#[test]
fn verbatim_roots_are_not_modelled() {
    assert!(!root_is_modelled(Some(r"\\?\C:\ProgramData"), '\\'));
    assert!(root_is_modelled(Some(r"\\?\C:\ProgramData"), '/'));
    assert!(root_is_modelled(Some(r"\\server\share"), '\\'));
    assert!(root_is_modelled(None, '\\'));
    assert!(join_is_modelled(r"\\server\share\x", '\\', "name"));
    assert!(!join_is_modelled(r"\\server\share\x", '\\', r"\name"));
    assert!(!join_is_modelled(r"C:\x", '\\', r"\\server\share"));
    assert!(join_is_modelled(r"C:\x", '\\', r"\name"));
    assert!(join_is_modelled(r"\\?\x", '/', r"\\name"));
}
