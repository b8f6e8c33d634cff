use polymix_update::command::Command;
use polymix_update::config::{find_mode, Config, UpdateMode};
use polymix_update::errors::SyncError;
use polymix_update::updater::Updater;

fn mode(name: &str, mask: &str) -> UpdateMode {
    UpdateMode { name: name.to_string(), file_mask: mask.to_string(), is_default: false }
}

fn config() -> Config {
    Config {
        connection_string: "server=tcp:localhost,1433".to_string(),
        update_mode: vec![mode("release", "*.dll;*.exe"), mode("docs", "*.md")],
    }
}

#[test]
fn mode_lookup_ignores_case() {
    let cfg = config();
    assert_eq!(find_mode(&cfg.update_mode, "RELEASE"), Some(0));
    assert_eq!(find_mode(&cfg.update_mode, "Docs"), Some(1));
    assert_eq!(find_mode(&cfg.update_mode, "nightly"), None);
}

#[test]
fn mode_lookup_folds_unicode_case() {
    // Lookup lowercases the full Unicode way, not ASCII letters only:
    // "\u{dc}" (a capital U-umlaut) lowercases to "\u{fc}".
    let modes = vec![mode("\u{dc}bergabe", "*.bin")];
    assert_eq!(find_mode(&modes, "\u{fc}bergabe"), Some(0));
    assert_eq!(find_mode(&modes, "\u{dc}BERGABE"), Some(0));
    assert_eq!(find_mode(&modes, "\u{fc}bergabe!"), None);

    let cfg = Config { connection_string: String::new(), update_mode: modes };
    let updater = Updater::new(&cfg, Command::List, "\u{fc}bergabe");
    assert_eq!(updater.get_file_mask(), Some("*.bin".to_string()));
}

#[test]
fn first_matching_mode_wins() {
    let modes = vec![mode("Build", "*.a"), mode("build", "*.b")];
    assert_eq!(find_mode(&modes, "BUILD"), Some(0));
}

#[test]
fn get_file_mask_returns_the_matched_mask() {
    let cfg = config();
    let updater = Updater::new(&cfg, Command::List, "DOCS");
    assert_eq!(updater.get_file_mask(), Some("*.md".to_string()));
}

#[test]
fn unknown_mode_is_a_config_error() {
    // An unknown mode name yields ModeNotFound before any file or store
    // operation; resolution itself performs none.
    let cfg = config();
    let updater = Updater::new(&cfg, Command::Upload, "nightly");
    assert_eq!(updater.get_file_mask(), None);
    assert_eq!(updater.resolve_pattern_set().unwrap_err(), SyncError::ModeNotFound);
}

#[test]
fn resolve_compiles_the_mask() {
    let cfg = config();
    let updater = Updater::new(&cfg, Command::Download, "release");
    let ps = updater.resolve_pattern_set().unwrap();
    assert!(ps.matches("engine.dll"));
    assert!(ps.matches("setup.EXE"));
    assert!(!ps.matches("readme.md"));
}

#[test]
fn resolve_refuses_a_bad_mask() {
    let cfg = Config {
        connection_string: String::new(),
        update_mode: vec![mode("broken", "*.dll;")],
    };
    let updater = Updater::new(&cfg, Command::Upload, "broken");
    assert_eq!(updater.resolve_pattern_set().unwrap_err(), SyncError::InvalidPattern);
}

#[test]
fn updater_keeps_its_context() {
    let cfg = config();
    let updater = Updater::new(&cfg, Command::List, "docs");
    assert_eq!(updater.command, Command::List);
    assert_eq!(updater.update_mode_name, "docs");
}
