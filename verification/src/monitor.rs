//! The decisions of the monitoring loops: whether monitoring can start,
//! what an admin installation does on each round, and the lines shown
//! about each synchronisation.

use vstd::prelude::*;
use vstd::string::*;
use crate::config::AppConfig;
use crate::scanner::{logout_text, logout_to_string, CharacterInfo};
use crate::text::concat_str;

verus! {

// ----------------------------------------------------------------------------
// Timing

/// Seconds between the start of the application and the first check.
pub const STARTUP_DELAY_SECS: u64 = 2;

/// Seconds between two rounds of the admin loop.
pub const ADMIN_ROUND_SECS: u64 = 30;

/// Seconds between two scheduled checks of a user session.
pub const USER_CHECK_SECS: u64 = 900;

// ----------------------------------------------------------------------------
// Starting

/// Whether monitoring can start.
#[derive(PartialEq, Eq, Debug, Clone, Copy, Structural)]
pub enum StartupGate {
    /// The game folder must be set first.
    NeedPath,
    /// An admin installation needs a GitHub token first.
    NeedToken,
    /// Monitoring starts, as an admin or a user session.
    Ready { admin: bool },
}

/// Whether monitoring can start, given whether the game folder is valid,
/// whether it is an admin installation, and the stored token.
pub fn startup_gate(path_valid: bool, admin: bool, token: &str) -> (g: StartupGate)
    ensures
        g == if !path_valid {
            StartupGate::NeedPath
        } else if admin && token@.len() == 0 {
            StartupGate::NeedToken
        } else {
            StartupGate::Ready { admin }
        },
{
    if !path_valid {
        StartupGate::NeedPath
    } else if admin && token.is_empty() {
        StartupGate::NeedToken
    } else {
        StartupGate::Ready { admin }
    }
}

/// The line shown when monitoring cannot start.
pub fn setup_message(g: StartupGate) -> (r: String)
    requires
        !(g is Ready),
    ensures
        g is NeedPath ==> r@ == "[!] [NEED_SETUP] Путь к WoW не настроен."@,
        g is NeedToken ==> r@ == "[!] [NEED_SETUP_TOKEN] Режим админа требует GitHub Token."@,
{
    match g {
        StartupGate::NeedPath => "[!] [NEED_SETUP] Путь к WoW не настроен.".to_owned(),
        _ => "[!] [NEED_SETUP_TOKEN] Режим админа требует GitHub Token.".to_owned(),
    }
}

/// The lines shown when a session starts.
pub fn session_banner(admin: bool) -> (r: Vec<String>)
    ensures
        r@.len() == 2,
        r@[0]@ == if admin {
            "[INFO] Запущена АДМИНСКАЯ сессия (активный мониторинг)."@
        } else {
            "[INFO] Запущена ПОЛЬЗОВАТЕЛЬСКАЯ сессия (только чтение)."@
        },
        r@[1]@ == "[OK] Система запущена. Мониторинг..."@,
{
    let mut r: Vec<String> = Vec::new();
    if admin {
        r.push("[INFO] Запущена АДМИНСКАЯ сессия (активный мониторинг).".to_owned());
    } else {
        r.push("[INFO] Запущена ПОЛЬЗОВАТЕЛЬСКАЯ сессия (только чтение).".to_owned());
    }
    r.push("[OK] Система запущена. Мониторинг...".to_owned());
    r
}

// ----------------------------------------------------------------------------
// A round of the admin loop

/// Which synchronisation a round of the admin loop makes.
#[derive(PartialEq, Eq, Debug, Clone, Copy, Structural)]
pub enum RoundSync {
    /// None.
    Skip,
    /// One whose outcome is not shown.
    Quiet,
    /// One whose outcome is shown.
    Reported,
}

/// What a round of the admin loop does once the saved variables are scanned.
#[derive(Debug, PartialEq)]
pub struct AdminRound {
    /// The activity line to show, if any.
    pub activity: Option<String>,
    /// Whether the settings must be stored.
    pub store_config: bool,
    /// Which synchronisation follows.
    pub sync: RoundSync,
}

/// Whether the character found differs from the one the settings remember.
pub open spec fn is_new_activity(cfg: AppConfig, c: CharacterInfo) -> bool {
    c.name_realm@ != cfg.last_char_name@ || logout_text(c.last_logout) != cfg.last_char_logout@
}

/// A round of the admin loop. Without a character found, nothing happens.
/// A character other than the remembered one (by name or logout time) is
/// remembered and the settings stored; after the first round it is also
/// shown and a reported synchronisation follows. The same character as
/// remembered leads to a quiet synchronisation.
pub fn admin_round(cfg: &mut AppConfig, found: Option<CharacterInfo>, is_first_run: bool) -> (r: AdminRound)
    ensures
        found matches Some(c) ==> ((c.name_realm@ != old(cfg).last_char_name@
            || logout_text(c.last_logout) != old(cfg).last_char_logout@) ==> (r.store_config
            && final(cfg).last_char_name@ == c.name_realm@
            && final(cfg).last_char_logout@ == logout_text(c.last_logout)
            && (!is_first_run ==> r.sync == RoundSync::Reported && r.activity is Some)
            && (is_first_run ==> r.sync == RoundSync::Skip && r.activity is None))),
        found matches Some(c) ==> ((c.name_realm@ == old(cfg).last_char_name@
            && logout_text(c.last_logout) == old(cfg).last_char_logout@) ==> (!r.store_config
            && r.sync == RoundSync::Quiet && r.activity is None && *final(cfg) == *old(cfg))),
        match found {
            None => *final(cfg) == *old(cfg) && r.activity is None && !r.store_config && r.sync == RoundSync::Skip,
            Some(c) => if is_new_activity(*old(cfg), c) {
                &&& final(cfg).last_char_name@ == c.name_realm@
                &&& final(cfg).last_char_logout@ == logout_text(c.last_logout)
                &&& final(cfg).game_path == old(cfg).game_path
                &&& final(cfg).github_token == old(cfg).github_token
                &&& final(cfg).force_user_mode == old(cfg).force_user_mode
                &&& final(cfg).first_run_sync_done == old(cfg).first_run_sync_done
                &&& r.store_config
                &&& if is_first_run {
                    r.activity is None && r.sync == RoundSync::Skip
                } else {
                    r.activity matches Some(line) && line@ == "[EVENT] Активность: "@ + c.name_realm@ + "."@
                        && r.sync == RoundSync::Reported
                }
            } else {
                *final(cfg) == *old(cfg) && r.activity is None && !r.store_config && r.sync == RoundSync::Quiet
            },
        },
{
    match found {
        None => AdminRound { activity: None, store_config: false, sync: RoundSync::Skip },
        Some(c) => {
            let logout = logout_to_string(&c.last_logout);
            let changed: bool = c.name_realm != cfg.last_char_name || logout != cfg.last_char_logout;
            if changed {
                let activity: Option<String> = if is_first_run {
                    None
                } else {
                    let head = concat_str("[EVENT] Активность: ", c.name_realm.as_str());
                    Some(concat_str(head.as_str(), "."))
                };
                cfg.last_char_name = c.name_realm;
                cfg.last_char_logout = logout;
                AdminRound {
                    activity,
                    store_config: true,
                    sync: if is_first_run { RoundSync::Skip } else { RoundSync::Reported },
                }
            } else {
                AdminRound { activity: None, store_config: false, sync: RoundSync::Quiet }
            }
        },
    }
}

// ----------------------------------------------------------------------------
// Lines about synchronisations

/// The line shown after a reported synchronisation of the admin loop.
pub fn admin_sync_report(outcome: &Result<(), String>) -> (r: String)
    ensures
        match outcome {
            Ok(()) => r@ == "[OK] Данные успешно обработаны."@,
            Err(e) => r@ == "[ERROR] Ошибка синхронизации: "@ + e@,
        },
{
    match outcome {
        Ok(()) => "[OK] Данные успешно обработаны.".to_owned(),
        Err(e) => concat_str("[ERROR] Ошибка синхронизации: ", e.as_str()),
    }
}

/// The line shown before each scheduled check of a user session.
pub fn user_check_notice() -> (r: String)
    ensures
        r@ == "[INFO] Плановая проверка обновлений базы..."@,
{
    "[INFO] Плановая проверка обновлений базы...".to_owned()
}

/// The line shown after each scheduled check of a user session.
pub fn user_sync_report(outcome: &Result<(), String>) -> (r: String)
    ensures
        match outcome {
            Ok(()) => r@ == "[OK] Проверка завершена."@,
            Err(e) => r@ == "[ERROR] Ошибка при автоматической проверке: "@ + e@,
        },
{
    match outcome {
        Ok(()) => "[OK] Проверка завершена.".to_owned(),
        Err(e) => concat_str("[ERROR] Ошибка при автоматической проверке: ", e.as_str()),
    }
}


/// Once a round has remembered a character, the same character found again
/// is no new activity: the next round synchronises quietly.
pub proof fn law_remembered_character_is_not_new(after: AppConfig, c: CharacterInfo)
    requires
        after.last_char_name@ == c.name_realm@,
        after.last_char_logout@ == logout_text(c.last_logout),
    ensures
        !is_new_activity(after, c),
{
}


/// A character found is new activity when its name differs from the one
/// remembered, whatever its logout time; when its logout time differs,
/// whatever its name; and only then.
pub proof fn law_new_activity_is_any_difference(cfg: AppConfig, c: CharacterInfo)
    ensures
        c.name_realm@ != cfg.last_char_name@ ==> is_new_activity(cfg, c),
        logout_text(c.last_logout) != cfg.last_char_logout@ ==> is_new_activity(cfg, c),
        c.name_realm@ == cfg.last_char_name@ && logout_text(c.last_logout) == cfg.last_char_logout@
            ==> !is_new_activity(cfg, c),
{
}

} // verus!
