use item_storage_manager::github::calculate_github_sha;
use item_storage_manager::json::JsonValue;
use item_storage_manager::sync::{sync_step, SyncAction, SyncEvent, SyncPhase, SyncRun};

fn log(s: &str) -> SyncAction {
    SyncAction::Log(s.to_string())
}

fn answer_with_sha(sha: &str) -> SyncEvent {
    SyncEvent::RemoteAnswer(Ok(Some(JsonValue::Object(vec![(
        "sha".to_string(),
        JsonValue::Str(sha.to_string()),
    )]))))
}

#[test]
fn identical_copies_finish_at_once() {
    let mut run = SyncRun::new(true, true);
    assert_eq!(
        sync_step(&mut run, SyncEvent::Begin),
        vec![log("[SYNC] Сверка базы данных с облаком..."), SyncAction::ReadLocalText]
    );
    let text = "db = {}\n";
    assert_eq!(sync_step(&mut run, SyncEvent::LocalText(Some(text.to_string()))), vec![SyncAction::FetchRemoteSha]);
    assert_eq!(run.phase, SyncPhase::AwaitRemoteSha { local_sha: calculate_github_sha(text) });
    let acts = sync_step(&mut run, answer_with_sha(&calculate_github_sha(text)));
    assert_eq!(acts, vec![log("[OK] Файлы идентичны."), SyncAction::Finish(Ok(()))]);
    assert!(run.is_finished());
}

#[test]
fn non_initial_runs_are_quiet_about_checking() {
    let mut run = SyncRun::new(false, true);
    assert_eq!(sync_step(&mut run, SyncEvent::Begin), vec![SyncAction::ReadLocalText]);
    sync_step(&mut run, SyncEvent::LocalText(Some("x".to_string())));
    let acts = sync_step(&mut run, answer_with_sha(&calculate_github_sha("x")));
    assert_eq!(acts, vec![SyncAction::Finish(Ok(()))]);
}

#[test]
fn first_initial_run_downloads_and_sets_the_flag() {
    let mut run = SyncRun::new(true, false);
    sync_step(&mut run, SyncEvent::Begin);
    assert_eq!(
        sync_step(&mut run, SyncEvent::LocalText(None)),
        vec![log("[SYNC] Первая синхронизация..."), SyncAction::Download]
    );
    assert_eq!(
        sync_step(&mut run, SyncEvent::Downloaded(Ok("remote".to_string()))),
        vec![SyncAction::WriteDb("remote".to_string())]
    );
    assert!(!run.first_run_sync_done);
    assert_eq!(sync_step(&mut run, SyncEvent::Written(Ok(()))), vec![SyncAction::StoreConfig]);
    assert!(run.first_run_sync_done);
    assert_eq!(
        sync_step(&mut run, SyncEvent::ConfigStored),
        vec![log("[SUCCESS] База синхронизирована с облаком."), SyncAction::Finish(Ok(()))]
    );
}

#[test]
fn different_copies_compare_times() {
    let mut run = SyncRun::new(false, true);
    sync_step(&mut run, SyncEvent::Begin);
    sync_step(&mut run, SyncEvent::LocalText(Some("local".to_string())));
    assert_eq!(sync_step(&mut run, answer_with_sha("other")), vec![SyncAction::FetchRemoteTime]);
    assert_eq!(sync_step(&mut run, SyncEvent::RemoteTime(Some(1000))), vec![SyncAction::ReadLocalTime]);
    assert_eq!(
        sync_step(&mut run, SyncEvent::LocalTime(900)),
        vec![log("[SYNC] В облаке версия новее. Загрузка..."), SyncAction::Download]
    );
    assert_eq!(
        sync_step(&mut run, SyncEvent::Downloaded(Ok("new".to_string()))),
        vec![SyncAction::WriteDb("new".to_string())]
    );
    assert_eq!(
        sync_step(&mut run, SyncEvent::Written(Ok(()))),
        vec![log("[SUCCESS] Локальная база успешно обновлена."), SyncAction::Finish(Ok(()))]
    );
}

#[test]
fn unsuccessful_status_also_compares_times() {
    let mut run = SyncRun::new(false, true);
    sync_step(&mut run, SyncEvent::Begin);
    sync_step(&mut run, SyncEvent::LocalText(Some("local".to_string())));
    assert_eq!(sync_step(&mut run, SyncEvent::RemoteAnswer(Ok(None))), vec![SyncAction::FetchRemoteTime]);
}

#[test]
fn newer_local_copy_is_uploaded_by_admins() {
    let mut run = SyncRun::new(false, true);
    sync_step(&mut run, SyncEvent::Begin);
    sync_step(&mut run, SyncEvent::LocalText(None));
    sync_step(&mut run, SyncEvent::RemoteTime(Some(1000)));
    assert_eq!(sync_step(&mut run, SyncEvent::LocalTime(1006)), vec![SyncAction::ProbeAdminMode]);
    assert_eq!(
        sync_step(&mut run, SyncEvent::AdminMode(true)),
        vec![log("[SYNC] Локальная база новее. Отправка..."), SyncAction::ReadForUpload]
    );
    assert_eq!(
        sync_step(&mut run, SyncEvent::UploadText(Ok("text".to_string()), "2024-05-06 07:08".to_string())),
        vec![SyncAction::Upload { content: "text".to_string(), message: "Auto-update: 2024-05-06 07:08".to_string() }]
    );
    assert_eq!(
        sync_step(&mut run, SyncEvent::Uploaded(Ok(()))),
        vec![log("[SUCCESS] Облако успешно обновлено."), SyncAction::Finish(Ok(()))]
    );
}

#[test]
fn newer_local_copy_is_left_alone_by_users() {
    let mut run = SyncRun::new(false, true);
    sync_step(&mut run, SyncEvent::Begin);
    sync_step(&mut run, SyncEvent::LocalText(None));
    sync_step(&mut run, SyncEvent::RemoteTime(Some(1000)));
    sync_step(&mut run, SyncEvent::LocalTime(2000));
    assert_eq!(sync_step(&mut run, SyncEvent::AdminMode(false)), vec![SyncAction::Finish(Ok(()))]);
}

#[test]
fn times_within_five_seconds_change_nothing() {
    for local in [995u64, 1000, 1005] {
        let mut run = SyncRun::new(false, true);
        sync_step(&mut run, SyncEvent::Begin);
        sync_step(&mut run, SyncEvent::LocalText(None));
        sync_step(&mut run, SyncEvent::RemoteTime(Some(1000)));
        assert_eq!(sync_step(&mut run, SyncEvent::LocalTime(local)), vec![SyncAction::Finish(Ok(()))]);
    }
}

#[test]
fn unreadable_remote_time_counts_as_zero() {
    let mut run = SyncRun::new(false, true);
    sync_step(&mut run, SyncEvent::Begin);
    sync_step(&mut run, SyncEvent::LocalText(None));
    sync_step(&mut run, SyncEvent::RemoteTime(None));
    assert_eq!(run.phase, SyncPhase::AwaitLocalTime { remote: 0 });
    assert_eq!(sync_step(&mut run, SyncEvent::LocalTime(10)), vec![SyncAction::ProbeAdminMode]);
}

#[test]
fn failures_end_the_run() {
    let mut run = SyncRun::new(true, true);
    sync_step(&mut run, SyncEvent::Begin);
    sync_step(&mut run, SyncEvent::LocalText(Some("x".to_string())));
    assert_eq!(
        sync_step(&mut run, SyncEvent::RemoteAnswer(Err("offline".to_string()))),
        vec![SyncAction::Finish(Err("offline".to_string()))]
    );
    assert!(run.is_finished());

    let mut run = SyncRun::new(true, false);
    sync_step(&mut run, SyncEvent::Begin);
    sync_step(&mut run, SyncEvent::LocalText(None));
    assert_eq!(
        sync_step(&mut run, SyncEvent::Downloaded(Err("404".to_string()))),
        vec![SyncAction::Finish(Err("404".to_string()))]
    );
    assert!(!run.first_run_sync_done);
}

#[test]
fn user_installation_run_never_uploads() {
    let mut run = SyncRun::new(true, true);
    let mut all = Vec::new();
    all.extend(sync_step(&mut run, SyncEvent::Begin));
    all.extend(sync_step(&mut run, SyncEvent::LocalText(Some("a".to_string()))));
    all.extend(sync_step(&mut run, answer_with_sha("other")));
    all.extend(sync_step(&mut run, SyncEvent::RemoteTime(Some(10))));
    all.extend(sync_step(&mut run, SyncEvent::LocalTime(1_000_000)));
    all.extend(sync_step(&mut run, SyncEvent::AdminMode(false)));
    assert!(run.is_finished());
    assert!(!all.iter().any(|a| matches!(a, SyncAction::Upload { .. })));
}

#[test]
fn failed_first_write_leaves_the_flag_clear() {
    let mut run = SyncRun::new(true, false);
    sync_step(&mut run, SyncEvent::Begin);
    sync_step(&mut run, SyncEvent::LocalText(None));
    sync_step(&mut run, SyncEvent::Downloaded(Ok("remote".to_string())));
    assert_eq!(
        sync_step(&mut run, SyncEvent::Written(Err("disk full".to_string()))),
        vec![SyncAction::Finish(Err("disk full".to_string()))]
    );
    assert!(!run.first_run_sync_done);
}
