use item_storage_manager::version::{update_check_failed, update_check_lines, update_lines, version_banner};

const URL: &str = "https://github.com/Phoenix-Guilds/ItemStorageDesktop/releases/tag/v0.2.0";

#[test]
fn newer_release_is_announced() {
    let lines = update_check_lines("0.1.0", "v0.2.0", URL);
    assert_eq!(
        lines,
        vec![
            "[UPDATE] ==========================================".to_string(),
            "[UPDATE] ДОСТУПНА НОВАЯ ВЕРСИЯ: v0.2.0".to_string(),
            format!("[UPDATE] Ссылка: {}", URL),
            "[UPDATE] ==========================================".to_string(),
        ]
    );
}

#[test]
fn current_release_is_confirmed() {
    assert_eq!(
        update_check_lines("0.2.0", "v0.2.0", URL),
        vec!["[INFO] У вас установлена актуальная версия.".to_string()]
    );
    assert_eq!(update_check_lines("1.0.0", "0.9.9", URL).len(), 1);
}

#[test]
fn prerelease_orders_below_its_release() {
    assert_eq!(update_check_lines("1.0.0-alpha", "v1.0.0", URL).len(), 4);
    assert_eq!(update_check_lines("1.0.0", "v1.0.0-alpha", URL).len(), 1);
    assert_eq!(update_check_lines("0.9.0", "vv1.0.0", URL)[1], "[UPDATE] ДОСТУПНА НОВАЯ ВЕРСИЯ: v1.0.0");
}

#[test]
fn unreadable_versions_say_nothing() {
    assert!(update_check_lines("0.1.0", "latest", URL).is_empty());
    assert!(update_check_lines("dev", "v0.2.0", URL).is_empty());
}

#[test]
fn update_lines_and_banners() {
    assert_eq!(update_lines(false, "9.9.9", "u"), vec!["[INFO] У вас установлена актуальная версия.".to_string()]);
    assert_eq!(update_lines(true, "9.9.9", "u")[2], "[UPDATE] Ссылка: u");
    assert_eq!(version_banner("0.1.0"), "[INFO] Ваша версия: v0.1.0. Проверка обновлений...");
    assert_eq!(update_check_failed("timeout"), "[WARN] Ошибка проверки обновлений: timeout");
}
