use item_storage_manager::config::AppConfig;
use item_storage_manager::monitor::{
    admin_round, admin_sync_report, session_banner, setup_message, startup_gate, user_check_notice,
    user_sync_report, RoundSync, StartupGate,
};
use item_storage_manager::scanner::{CharacterInfo, LogoutTime};

fn cfg() -> AppConfig {
    AppConfig {
        game_path: "C:\\WoW".to_string(),
        github_token: "tok".to_string(),
        force_user_mode: false,
        last_char_name: "A-R".to_string(),
        last_char_logout: "2024-01-01 00:00:00".to_string(),
        first_run_sync_done: true,
    }
}

fn character(name: &str, second: u32) -> CharacterInfo {
    CharacterInfo {
        name_realm: name.to_string(),
        last_logout: LogoutTime::parse(&format!("2024-01-01 00:00:{:02}", second)).unwrap(),
    }
}

#[test]
fn startup_needs_a_folder_then_a_token_for_admins() {
    assert_eq!(startup_gate(false, true, ""), StartupGate::NeedPath);
    assert_eq!(startup_gate(true, true, ""), StartupGate::NeedToken);
    assert_eq!(startup_gate(true, true, "t"), StartupGate::Ready { admin: true });
    assert_eq!(startup_gate(true, false, ""), StartupGate::Ready { admin: false });
    assert_eq!(setup_message(StartupGate::NeedPath), "[!] [NEED_SETUP] Путь к WoW не настроен.");
    assert_eq!(
        setup_message(StartupGate::NeedToken),
        "[!] [NEED_SETUP_TOKEN] Режим админа требует GitHub Token."
    );
}

#[test]
fn session_banners() {
    let admin = session_banner(true);
    assert_eq!(admin[0], "[INFO] Запущена АДМИНСКАЯ сессия (активный мониторинг).");
    assert_eq!(admin[1], "[OK] Система запущена. Мониторинг...");
    assert_eq!(session_banner(false)[0], "[INFO] Запущена ПОЛЬЗОВАТЕЛЬСКАЯ сессия (только чтение).");
}

#[test]
fn round_without_character_does_nothing() {
    let mut c = cfg();
    let r = admin_round(&mut c, None, false);
    assert_eq!(r.activity, None);
    assert!(!r.store_config);
    assert_eq!(r.sync, RoundSync::Skip);
    assert_eq!(c, cfg());
}

#[test]
fn same_character_syncs_quietly() {
    let mut c = cfg();
    let r = admin_round(&mut c, Some(character("A-R", 0)), false);
    assert_eq!(r.activity, None);
    assert!(!r.store_config);
    assert_eq!(r.sync, RoundSync::Quiet);
    assert_eq!(c, cfg());
}

#[test]
fn new_activity_is_remembered_and_reported() {
    let mut c = cfg();
    let r = admin_round(&mut c, Some(character("A-R", 7)), false);
    assert_eq!(r.activity, Some("[EVENT] Активность: A-R.".to_string()));
    assert!(r.store_config);
    assert_eq!(r.sync, RoundSync::Reported);
    assert_eq!(c.last_char_logout, "2024-01-01 00:00:07");
    // The next round with the same character is quiet.
    let r = admin_round(&mut c, Some(character("A-R", 7)), false);
    assert_eq!(r.sync, RoundSync::Quiet);
}

#[test]
fn first_round_remembers_silently() {
    let mut c = cfg();
    let r = admin_round(&mut c, Some(character("B-R", 0)), true);
    assert_eq!(r.activity, None);
    assert!(r.store_config);
    assert_eq!(r.sync, RoundSync::Skip);
    assert_eq!(c.last_char_name, "B-R");
}

#[test]
fn sync_reports() {
    assert_eq!(admin_sync_report(&Ok(())), "[OK] Данные успешно обработаны.");
    assert_eq!(admin_sync_report(&Err("boom".to_string())), "[ERROR] Ошибка синхронизации: boom");
    assert_eq!(user_check_notice(), "[INFO] Плановая проверка обновлений базы...");
    assert_eq!(user_sync_report(&Ok(())), "[OK] Проверка завершена.");
    assert_eq!(
        user_sync_report(&Err("boom".to_string())),
        "[ERROR] Ошибка при автоматической проверке: boom"
    );
}
