use chrono::NaiveDateTime;
use item_storage_manager::scanner::{
    account_log_paths, find_latest_in_lua, is_later, latest_record, logout_to_string, run_admin_scan,
    CharacterInfo, LogoutTime,
};

fn t(year: i32, month: u32, day: u32, hour: u32, minute: u32, second: u32) -> LogoutTime {
    let text = format!("{:04}-{:02}-{:02} {:02}:{:02}:{:02}", year, month, day, hour, minute, second);
    LogoutTime::parse(&text).unwrap()
}

fn lua(records: &[(&str, &str)]) -> String {
    let mut out = String::from("CharacterStatusLoggerDB = {\n");
    for (name, date) in records {
        out.push_str(&format!("\t[\"{}\"] = {{\n\t\t[\"lastLogout\"] = \"{}\",\n\t}},\n", name, date));
    }
    out.push_str("}\n");
    out
}

#[test]
fn latest_record_of_a_saved_variables_file() {
    let text = lua(&[
        ("Arthas-Lordaeron", "2024-03-01 12:00:00"),
        ("Jaina-Lordaeron", "2024-03-02 08:30:15"),
        ("Thrall-Draenor", "2024-02-28 23:59:59"),
    ]);
    let c = find_latest_in_lua(&text).unwrap();
    assert_eq!(c.name_realm, "Jaina-Lordaeron");
    assert_eq!(c.last_logout, t(2024, 3, 2, 8, 30, 15));
}

#[test]
fn ties_go_to_the_first_record() {
    let text = lua(&[("A-R", "2024-03-01 12:00:00"), ("B-R", "2024-03-01 12:00:00")]);
    assert_eq!(find_latest_in_lua(&text).unwrap().name_realm, "A-R");
}

#[test]
fn records_with_unreadable_dates_are_skipped() {
    let text = lua(&[("A-R", "never"), ("B-R", "2023-01-01 00:00:00"), ("C-R", "2024-13-01 00:00:00")]);
    assert_eq!(find_latest_in_lua(&text).unwrap().name_realm, "B-R");
    assert!(find_latest_in_lua(&lua(&[("A-R", "never")])).is_none());
    assert!(find_latest_in_lua("").is_none());
}

#[test]
fn scan_takes_the_latest_over_all_accounts() {
    let logs = vec![
        Some(lua(&[("A-R", "2024-03-01 12:00:00")])),
        None,
        Some(lua(&[("C-R", "2024-03-05 12:00:00"), ("D-R", "2024-03-01 00:00:00")])),
        Some(lua(&[("E-R", "2024-03-05 12:00:00")])),
    ];
    let c = run_admin_scan(&logs).unwrap();
    assert_eq!(c.name_realm, "C-R");
    assert!(run_admin_scan(&vec![None, None, None, None]).is_none());
    assert!(run_admin_scan(&vec![Some(String::new())]).is_none());
}

#[test]
fn account_files_scanned() {
    let paths = account_log_paths();
    assert_eq!(paths.len(), 4);
    assert_eq!(paths[0], "WTF\\Account\\HKFIRST01\\SavedVariables\\CharacterStatusLogger.lua");
    assert_eq!(paths[3], "WTF\\Account\\HKFIRST04\\SavedVariables\\CharacterStatusLogger.lua");
}

#[test]
fn order_of_logout_times() {
    assert!(is_later(&t(2024, 1, 1, 0, 0, 1), &t(2024, 1, 1, 0, 0, 0)));
    assert!(is_later(&t(2025, 1, 1, 0, 0, 0), &t(2024, 12, 31, 23, 59, 59)));
    assert!(!is_later(&t(2024, 1, 1, 0, 0, 0), &t(2024, 1, 1, 0, 0, 0)));
    let leap = LogoutTime::parse("2016-12-31 23:59:60").unwrap();
    assert_eq!((leap.second, leap.nanosecond), (59, 1_000_000_000));
    assert!(is_later(&leap, &t(2016, 12, 31, 23, 59, 59)));
}

#[test]
fn latest_of_records_directly() {
    let records = vec![
        CharacterInfo { name_realm: "X".to_string(), last_logout: t(2020, 1, 1, 0, 0, 0) },
        CharacterInfo { name_realm: "Y".to_string(), last_logout: t(2021, 1, 1, 0, 0, 0) },
        CharacterInfo { name_realm: "Z".to_string(), last_logout: t(2021, 1, 1, 0, 0, 0) },
    ];
    assert_eq!(latest_record(records).unwrap().name_realm, "Y");
    assert!(latest_record(vec![]).is_none());
}

#[test]
fn logout_text_matches_chrono() {
    assert_eq!(logout_to_string(&t(2024, 3, 2, 8, 30, 15)), "2024-03-02 08:30:15");
    assert_eq!(logout_to_string(&t(5, 1, 2, 3, 4, 5)), "0005-01-02 03:04:05");
    for text in ["2024-03-02 08:30:15", "1999-12-31 23:59:60", "0001-01-01 00:00:00", "+10000-01-02 03:04:05"] {
        let d = NaiveDateTime::parse_from_str(text, "%Y-%m-%d %H:%M:%S").unwrap();
        let c = find_latest_in_lua(&lua(&[("A-R", text)])).unwrap();
        assert_eq!(logout_to_string(&c.last_logout), d.to_string());
    }
    assert_eq!(logout_to_string(&LogoutTime::parse("2016-12-31 23:59:60").unwrap()), "2016-12-31 23:59:60");
}

#[test]
fn logout_time_reading() {
    let x = LogoutTime::parse("2024-05-06 07:08:09").unwrap();
    assert_eq!((x.year, x.month, x.day, x.hour, x.minute, x.second, x.nanosecond), (2024, 5, 6, 7, 8, 9, 0));
    assert!(LogoutTime::parse("2024-05-06").is_none());
    assert!(LogoutTime::parse("2024-02-30 00:00:00").is_none());
}

#[test]
fn empty_scan_exactly_when_no_file_has_a_record() {
    let logs = vec![None, Some(lua(&[("A-R", "never")])), Some(String::from("x = 1")), None];
    assert!(run_admin_scan(&logs).is_none());
    let logs = vec![None, Some(lua(&[("A-R", "never"), ("B-R", "2020-01-01 00:00:00")])), None, None];
    assert_eq!(run_admin_scan(&logs).unwrap().name_realm, "B-R");
}
