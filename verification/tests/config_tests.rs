use std::cell::RefCell;

use item_storage_manager::config::{
    db_file_path, is_admin_mode, is_valid_wow_path, settings_after_path_check,
    settings_after_token_check, settings_begin, AppConfig, SettingsAction, SettingsError,
    SettingsRequest,
};

fn cfg() -> AppConfig {
    AppConfig {
        game_path: "C:\\Old".to_string(),
        github_token: "old-token".to_string(),
        force_user_mode: false,
        last_char_name: "A-R".to_string(),
        last_char_logout: "2024-01-01 00:00:00".to_string(),
        first_run_sync_done: true,
    }
}

fn req(path: &str, token: &str, user_mode: bool) -> SettingsRequest {
    SettingsRequest { path: path.to_string(), token: token.to_string(), user_mode }
}

#[test]
fn default_settings_are_empty() {
    let c = AppConfig::default();
    assert_eq!(c.game_path, "");
    assert_eq!(c.github_token, "");
    assert!(!c.force_user_mode);
    assert_eq!(c.last_char_name, "");
    assert_eq!(c.last_char_logout, "");
    assert!(!c.first_run_sync_done);
}

#[test]
fn game_folder_is_recognised_by_its_wtf_folder() {
    let asked = RefCell::new(Vec::new());
    let probe = |base: &str, entry: &str| {
        asked.borrow_mut().push((base.to_string(), entry.to_string()));
        base == "C:\\WoW"
    };
    assert!(is_valid_wow_path("C:\\WoW", &probe));
    assert!(!is_valid_wow_path("D:\\Other", &probe));
    assert_eq!(asked.borrow()[0], ("C:\\WoW".to_string(), "WTF".to_string()));
}

#[test]
fn admin_installation_is_recognised_by_the_logger_addon() {
    let asked = RefCell::new(Vec::new());
    let probe = |base: &str, entry: &str| {
        asked.borrow_mut().push(entry.to_string());
        base == "C:\\WoW"
    };
    assert!(is_admin_mode("C:\\WoW", &probe));
    assert_eq!(asked.borrow()[0], "Interface\\AddOns\\CharacterStatusLogger");
    assert_eq!(db_file_path(), "Interface\\AddOns\\ItemStorageBrowser\\ItemStorageDB.lua");
}

#[test]
fn typed_folder_is_checked_cleaned_first() {
    let mut c = cfg();
    let a = settings_begin(&mut c, &req("  \"C:\\Games\\WoW\" \n", "", false));
    assert_eq!(a, SettingsAction::CheckPath("C:\\Games\\WoW".to_string()));
    assert_eq!(c, cfg());
}

#[test]
fn invalid_folder_refuses_without_change() {
    let mut c = cfg();
    let r = req("C:\\Nope", "new", false);
    let a = settings_after_path_check(&mut c, &r, "C:\\Nope".to_string(), false);
    assert_eq!(a, SettingsAction::Reply(Err(SettingsError::InvalidPath)));
    assert_eq!(c, cfg());
    assert_eq!(SettingsError::InvalidPath.code(), "INVALID_PATH");
    assert_eq!(SettingsError::InvalidToken.code(), "INVALID_TOKEN");
}

#[test]
fn valid_folder_then_token_validation() {
    let mut c = cfg();
    let r = req("C:\\WoW", "  new-token ", false);
    let a = settings_after_path_check(&mut c, &r, "C:\\WoW".to_string(), true);
    assert_eq!(c.game_path, "C:\\WoW");
    assert_eq!(c.github_token, "old-token");
    // The token is validated as typed, and stored trimmed.
    assert_eq!(a, SettingsAction::ValidateToken("  new-token ".to_string()));
    let a = settings_after_token_check(&mut c, &r, true);
    assert_eq!(a, SettingsAction::Store);
    assert_eq!(c.github_token, "new-token");
    assert!(!c.force_user_mode);
}

#[test]
fn refused_token_changes_nothing_more() {
    let mut c = cfg();
    let r = req("", "bad", false);
    assert_eq!(settings_begin(&mut c, &r), SettingsAction::ValidateToken("bad".to_string()));
    let a = settings_after_token_check(&mut c, &r, false);
    assert_eq!(a, SettingsAction::Reply(Err(SettingsError::InvalidToken)));
    assert_eq!(c, cfg());
}

#[test]
fn user_mode_clears_the_token() {
    let mut c = cfg();
    let a = settings_begin(&mut c, &req("", "ignored", true));
    assert_eq!(a, SettingsAction::Store);
    assert!(c.force_user_mode);
    assert_eq!(c.github_token, "");
    assert_eq!(c.game_path, "C:\\Old");
}

#[test]
fn blank_token_keeps_the_settings() {
    let mut c = cfg();
    assert_eq!(settings_begin(&mut c, &req("", "   ", false)), SettingsAction::Store);
    assert_eq!(c, cfg());
}

#[test]
fn whole_exchange_keeps_remembered_fields() {
    let mut c = cfg();
    let r = req(" D:\\WoW ", "  tok ", false);
    let a = settings_begin(&mut c, &r);
    let checked = match a {
        SettingsAction::CheckPath(p) => p,
        other => panic!("unexpected {:?}", other),
    };
    let a = settings_after_path_check(&mut c, &r, checked, true);
    assert_eq!(a, SettingsAction::ValidateToken("  tok ".to_string()));
    assert_eq!(settings_after_token_check(&mut c, &r, true), SettingsAction::Store);
    assert_eq!(c.game_path, "D:\\WoW");
    assert_eq!(c.github_token, "tok");
    assert_eq!(c.last_char_name, cfg().last_char_name);
    assert_eq!(c.last_char_logout, cfg().last_char_logout);
    assert_eq!(c.first_run_sync_done, cfg().first_run_sync_done);
}
