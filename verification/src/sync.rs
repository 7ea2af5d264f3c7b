//! One synchronisation of the local item database with its copy on GitHub.
//!
//! A run alternates outside work (reading and writing the database file,
//! asking GitHub, probing the installation) with decisions. The decisions
//! are this module: [`sync_step`] takes the state of a run and the outcome of
//! the work it last asked for, and gives the next state with the log lines
//! to show and the next piece of work to do. The caller performs the work and
//! feeds back its outcome, until the run asks to finish.

use vstd::prelude::*;
use crate::github::{calculate_github_sha, github_sha, remote_sha, remote_sha_of};
use crate::json::JsonValue;

verus! {

/// Where a run stands: the outside work it waits for.
#[derive(Debug, PartialEq)]
pub enum SyncPhase {
    /// Not started.
    Idle,
    /// Waiting for the local database text.
    AwaitLocalText,
    /// Waiting for GitHub's answer about its copy; holds the local object id.
    AwaitRemoteSha { local_sha: String },
    /// First synchronisation: waiting for the download.
    AwaitFirstDownload,
    /// First synchronisation: waiting for the downloaded text to be written.
    AwaitFirstWrite,
    /// First synchronisation: waiting for the configuration to be stored.
    AwaitConfigStore,
    /// Waiting for the time of the last remote change.
    AwaitRemoteTime,
    /// Waiting for the local modification time; holds the remote time.
    AwaitLocalTime { remote: u64 },
    /// Local copy newer: waiting to learn whether this is an admin installation.
    AwaitAdminProbe { local: u64, remote: u64 },
    /// Remote copy newer: waiting for the download.
    AwaitDownload,
    /// Remote copy newer: waiting for the downloaded text to be written.
    AwaitWrite,
    /// Local copy newer: waiting for its text and the time of the upload.
    AwaitUploadText { local: u64, remote: u64 },
    /// Local copy newer: waiting for the upload to finish.
    AwaitUpload { local: u64, remote: u64 },
    /// The run is over.
    Finished,
}

/// The state of one synchronisation run.
#[derive(Debug, PartialEq)]
pub struct SyncRun {
    /// Where the run stands.
    pub phase: SyncPhase,
    /// Whether this is the run made when monitoring starts.
    pub is_initial: bool,
    /// Whether the first download from GitHub has been done on this machine.
    pub first_run_sync_done: bool,
    /// Whether this run has found the installation to be an admin one.
    pub admin_confirmed: bool,
}

/// The outcome of the outside work a run asked for.
#[derive(Debug, PartialEq)]
pub enum SyncEvent {
    /// Start the run.
    Begin,
    /// The local database text; `None` where the file is missing or unreadable.
    LocalText(Option<String>),
    /// GitHub's contents answer: `Err` with its message where the request or
    /// the reading of its body failed, `Ok(None)` where GitHub answered with
    /// an unsuccessful status, `Ok(Some(json))` otherwise.
    RemoteAnswer(Result<Option<JsonValue>, String>),
    /// The downloaded database text, or why the download failed.
    Downloaded(Result<String, String>),
    /// Whether the database file was written, or why not.
    Written(Result<(), String>),
    /// The configuration was stored (whatever the outcome).
    ConfigStored,
    /// The time of the last remote change, `None` where it could not be read.
    RemoteTime(Option<u64>),
    /// The local modification time, 0 where it could not be read.
    LocalTime(u64),
    /// Whether the installation is an admin one.
    AdminMode(bool),
    /// The local database text to upload (or why it could not be read), and
    /// the local time of the upload as text.
    UploadText(Result<String, String>, String),
    /// Whether the upload succeeded, or why not.
    Uploaded(Result<(), String>),
}

/// What a run asks to be done next.
#[derive(Debug, PartialEq)]
pub enum SyncAction {
    /// Show a line in the log window.
    Log(String),
    /// Read the local database text.
    ReadLocalText,
    /// Ask GitHub for its copy's object id.
    FetchRemoteSha,
    /// Download the database from GitHub.
    Download,
    /// Write this text to the local database file.
    WriteDb(String),
    /// Store the configuration, whose first-synchronisation flag is now set.
    StoreConfig,
    /// Ask GitHub for the time of the last remote change.
    FetchRemoteTime,
    /// Read the local modification time.
    ReadLocalTime,
    /// Find out whether this is an admin installation.
    ProbeAdminMode,
    /// Read the local database text for an upload, with the current local
    /// time written in [`UPLOAD_STAMP_FORMAT`].
    ReadForUpload,
    /// Upload this text with this commit message.
    Upload { content: String, message: String },
    /// The run is over, with this outcome.
    Finish(Result<(), String>),
}

// ----------------------------------------------------------------------------
// Views

/// The mathematical form of [`SyncPhase`].
pub enum PhaseView {
    Idle,
    AwaitLocalText,
    AwaitRemoteSha(Seq<char>),
    AwaitFirstDownload,
    AwaitFirstWrite,
    AwaitConfigStore,
    AwaitRemoteTime,
    AwaitLocalTime(u64),
    AwaitAdminProbe(u64, u64),
    AwaitDownload,
    AwaitWrite,
    AwaitUploadText(u64, u64),
    AwaitUpload(u64, u64),
    Finished,
}

/// The mathematical form of [`SyncRun`].
pub struct RunView {
    pub phase: PhaseView,
    pub is_initial: bool,
    pub first_run_sync_done: bool,
    pub admin_confirmed: bool,
}

/// The mathematical form of [`SyncAction`].
pub enum ActionView {
    Log(Seq<char>),
    ReadLocalText,
    FetchRemoteSha,
    Download,
    WriteDb(Seq<char>),
    StoreConfig,
    FetchRemoteTime,
    ReadLocalTime,
    ProbeAdminMode,
    ReadForUpload,
    Upload(Seq<char>, Seq<char>),
    Finish(Result<(), Seq<char>>),
}

impl View for SyncPhase {
    type V = PhaseView;

    open spec fn view(&self) -> PhaseView {
        match self {
            SyncPhase::Idle => PhaseView::Idle,
            SyncPhase::AwaitLocalText => PhaseView::AwaitLocalText,
            SyncPhase::AwaitRemoteSha { local_sha } => PhaseView::AwaitRemoteSha(local_sha@),
            SyncPhase::AwaitFirstDownload => PhaseView::AwaitFirstDownload,
            SyncPhase::AwaitFirstWrite => PhaseView::AwaitFirstWrite,
            SyncPhase::AwaitConfigStore => PhaseView::AwaitConfigStore,
            SyncPhase::AwaitRemoteTime => PhaseView::AwaitRemoteTime,
            SyncPhase::AwaitLocalTime { remote } => PhaseView::AwaitLocalTime(*remote),
            SyncPhase::AwaitAdminProbe { local, remote } => PhaseView::AwaitAdminProbe(*local, *remote),
            SyncPhase::AwaitDownload => PhaseView::AwaitDownload,
            SyncPhase::AwaitWrite => PhaseView::AwaitWrite,
            SyncPhase::AwaitUploadText { local, remote } => PhaseView::AwaitUploadText(*local, *remote),
            SyncPhase::AwaitUpload { local, remote } => PhaseView::AwaitUpload(*local, *remote),
            SyncPhase::Finished => PhaseView::Finished,
        }
    }
}

impl View for SyncRun {
    type V = RunView;

    open spec fn view(&self) -> RunView {
        RunView {
            phase: self.phase@,
            is_initial: self.is_initial,
            first_run_sync_done: self.first_run_sync_done,
            admin_confirmed: self.admin_confirmed,
        }
    }
}

/// The mathematical form of an outcome carried as `Result<(), String>`.
pub open spec fn outcome_view(r: Result<(), String>) -> Result<(), Seq<char>> {
    match r {
        Ok(()) => Ok(()),
        Err(e) => Err(e@),
    }
}

impl View for SyncAction {
    type V = ActionView;

    open spec fn view(&self) -> ActionView {
        match self {
            SyncAction::Log(s) => ActionView::Log(s@),
            SyncAction::ReadLocalText => ActionView::ReadLocalText,
            SyncAction::FetchRemoteSha => ActionView::FetchRemoteSha,
            SyncAction::Download => ActionView::Download,
            SyncAction::WriteDb(s) => ActionView::WriteDb(s@),
            SyncAction::StoreConfig => ActionView::StoreConfig,
            SyncAction::FetchRemoteTime => ActionView::FetchRemoteTime,
            SyncAction::ReadLocalTime => ActionView::ReadLocalTime,
            SyncAction::ProbeAdminMode => ActionView::ProbeAdminMode,
            SyncAction::ReadForUpload => ActionView::ReadForUpload,
            SyncAction::Upload { content, message } => ActionView::Upload(content@, message@),
            SyncAction::Finish(r) => ActionView::Finish(outcome_view(*r)),
        }
    }
}

/// The mathematical form of a list of actions.
pub open spec fn actions_view(v: Seq<SyncAction>) -> Seq<ActionView> {
    v.map_values(|a: SyncAction| a@)
}

/// The chrono format in which the local time of an upload is written
/// into its commit message.
pub const UPLOAD_STAMP_FORMAT: &'static str = "%Y-%m-%d %H:%M";

// ----------------------------------------------------------------------------
// Log lines

pub open spec fn msg_checking() -> Seq<char> { "[SYNC] Сверка базы данных с облаком..."@ }
pub open spec fn msg_identical() -> Seq<char> { "[OK] Файлы идентичны."@ }
pub open spec fn msg_first_sync() -> Seq<char> { "[SYNC] Первая синхронизация..."@ }
pub open spec fn msg_first_done() -> Seq<char> { "[SUCCESS] База синхронизирована с облаком."@ }
pub open spec fn msg_remote_newer() -> Seq<char> { "[SYNC] В облаке версия новее. Загрузка..."@ }
pub open spec fn msg_local_updated() -> Seq<char> { "[SUCCESS] Локальная база успешно обновлена."@ }
pub open spec fn msg_local_newer() -> Seq<char> { "[SYNC] Локальная база новее. Отправка..."@ }
pub open spec fn msg_cloud_updated() -> Seq<char> { "[SUCCESS] Облако успешно обновлено."@ }

// ----------------------------------------------------------------------------
// The decisions

/// The distance between the local and the remote times: both read as
/// `i64`, subtracted, absolute value.
pub open spec fn time_gap(local: u64, remote: u64) -> int {
    let d = (local as i64) as int - (remote as i64) as int;
    if d < 0 { -d } else { d }
}

/// Whether that distance can be computed in `i64` without overflow.
pub open spec fn gap_fits(local: u64, remote: u64) -> bool {
    let d = (local as i64) as int - (remote as i64) as int;
    i64::MIN < d <= i64::MAX
}

/// Whether a run in `phase` waits for `event`.
pub open spec fn accepts(phase: PhaseView, event: SyncEvent) -> bool {
    match phase {
        PhaseView::Idle => event is Begin,
        PhaseView::AwaitLocalText => event is LocalText,
        PhaseView::AwaitRemoteSha(_) => event is RemoteAnswer,
        PhaseView::AwaitFirstDownload => event is Downloaded,
        PhaseView::AwaitFirstWrite => event is Written,
        PhaseView::AwaitConfigStore => event is ConfigStored,
        PhaseView::AwaitRemoteTime => event is RemoteTime,
        PhaseView::AwaitLocalTime(remote) => match event {
            SyncEvent::LocalTime(local) => gap_fits(local, remote),
            _ => false,
        },
        PhaseView::AwaitAdminProbe(_, _) => event is AdminMode,
        PhaseView::AwaitDownload => event is Downloaded,
        PhaseView::AwaitWrite => event is Written,
        PhaseView::AwaitUploadText(_, _) => event is UploadText,
        PhaseView::AwaitUpload(_, _) => event is Uploaded,
        PhaseView::Finished => false,
    }
}

/// `s` with its phase replaced.
pub open spec fn with_phase(s: RunView, phase: PhaseView) -> RunView {
    RunView { phase, ..s }
}

/// The end of a run, with this outcome.
pub open spec fn finish(s: RunView, outcome: Result<(), Seq<char>>) -> (RunView, Seq<ActionView>) {
    (with_phase(s, PhaseView::Finished), seq![ActionView::Finish(outcome)])
}

/// What follows once the object ids are known to differ (or could not be
/// compared): the first download on a first initial run, else the times.
pub open spec fn after_compare(s: RunView) -> (RunView, Seq<ActionView>) {
    if s.is_initial && !s.first_run_sync_done {
        (with_phase(s, PhaseView::AwaitFirstDownload), seq![ActionView::Log(msg_first_sync()), ActionView::Download])
    } else {
        (with_phase(s, PhaseView::AwaitRemoteTime), seq![ActionView::FetchRemoteTime])
    }
}

/// One step of a run: the next state, and the log lines followed by the next
/// piece of work.
pub open spec fn step_spec(s: RunView, e: SyncEvent) -> (RunView, Seq<ActionView>) {
    match (s.phase, e) {
        (PhaseView::Idle, SyncEvent::Begin) => {
            let next = with_phase(s, PhaseView::AwaitLocalText);
            if s.is_initial {
                (next, seq![ActionView::Log(msg_checking()), ActionView::ReadLocalText])
            } else {
                (next, seq![ActionView::ReadLocalText])
            }
        },
        (PhaseView::AwaitLocalText, SyncEvent::LocalText(text)) => match text {
            Some(t) => (with_phase(s, PhaseView::AwaitRemoteSha(github_sha(t@))), seq![ActionView::FetchRemoteSha]),
            None => after_compare(s),
        },
        (PhaseView::AwaitRemoteSha(local_sha), SyncEvent::RemoteAnswer(answer)) => match answer {
            Err(msg) => finish(s, Err(msg@)),
            Ok(Some(json)) => if remote_sha_of(json) == local_sha {
                let (next, acts) = finish(s, Ok(()));
                if s.is_initial {
                    (next, seq![ActionView::Log(msg_identical())] + acts)
                } else {
                    (next, acts)
                }
            } else {
                after_compare(s)
            },
            Ok(None) => after_compare(s),
        },
        (PhaseView::AwaitFirstDownload, SyncEvent::Downloaded(d)) => match d {
            Err(msg) => finish(s, Err(msg@)),
            Ok(text) => (with_phase(s, PhaseView::AwaitFirstWrite), seq![ActionView::WriteDb(text@)]),
        },
        (PhaseView::AwaitFirstWrite, SyncEvent::Written(w)) => match w {
            Err(msg) => finish(s, Err(msg@)),
            Ok(()) => (
                RunView { phase: PhaseView::AwaitConfigStore, first_run_sync_done: true, ..s },
                seq![ActionView::StoreConfig],
            ),
        },
        (PhaseView::AwaitConfigStore, SyncEvent::ConfigStored) => {
            let (next, acts) = finish(s, Ok(()));
            (next, seq![ActionView::Log(msg_first_done())] + acts)
        },
        (PhaseView::AwaitRemoteTime, SyncEvent::RemoteTime(t)) => {
            let remote: u64 = match t {
                Some(x) => x,
                None => 0,
            };
            (with_phase(s, PhaseView::AwaitLocalTime(remote)), seq![ActionView::ReadLocalTime])
        },
        (PhaseView::AwaitLocalTime(remote), SyncEvent::LocalTime(local)) => {
            if time_gap(local, remote) > 5 && remote > local {
                (with_phase(s, PhaseView::AwaitDownload), seq![ActionView::Log(msg_remote_newer()), ActionView::Download])
            } else if time_gap(local, remote) > 5 && local > remote {
                (with_phase(s, PhaseView::AwaitAdminProbe(local, remote)), seq![ActionView::ProbeAdminMode])
            } else {
                finish(s, Ok(()))
            }
        },
        (PhaseView::AwaitAdminProbe(local, remote), SyncEvent::AdminMode(admin)) => if admin {
            (
                RunView { phase: PhaseView::AwaitUploadText(local, remote), admin_confirmed: true, ..s },
                seq![ActionView::Log(msg_local_newer()), ActionView::ReadForUpload],
            )
        } else {
            finish(s, Ok(()))
        },
        (PhaseView::AwaitDownload, SyncEvent::Downloaded(d)) => match d {
            Err(msg) => finish(s, Err(msg@)),
            Ok(text) => (with_phase(s, PhaseView::AwaitWrite), seq![ActionView::WriteDb(text@)]),
        },
        (PhaseView::AwaitWrite, SyncEvent::Written(w)) => match w {
            Err(msg) => finish(s, Err(msg@)),
            Ok(()) => {
                let (next, acts) = finish(s, Ok(()));
                (next, seq![ActionView::Log(msg_local_updated())] + acts)
            },
        },
        (PhaseView::AwaitUploadText(local, remote), SyncEvent::UploadText(text, stamp)) => match text {
            Err(msg) => finish(s, Err(msg@)),
            Ok(t) => (
                with_phase(s, PhaseView::AwaitUpload(local, remote)),
                seq![ActionView::Upload(t@, "Auto-update: "@ + stamp@)],
            ),
        },
        (PhaseView::AwaitUpload(_, _), SyncEvent::Uploaded(u)) => match u {
            Err(msg) => finish(s, Err(msg@)),
            Ok(()) => {
                let (next, acts) = finish(s, Ok(()));
                (next, seq![ActionView::Log(msg_cloud_updated())] + acts)
            },
        },
        _ => (s, Seq::empty()),
    }
}


// ----------------------------------------------------------------------------
// Executable steps

fn log(line: &str) -> (a: SyncAction)
    ensures
        a@ == ActionView::Log(line@),
{
    SyncAction::Log(line.to_owned())
}

fn finish_run(run: &mut SyncRun, outcome: Result<(), String>, acts: &mut Vec<SyncAction>)
    ensures
        final(run)@ == with_phase(old(run)@, PhaseView::Finished),
        actions_view(final(acts)@) == actions_view(old(acts)@).push(ActionView::Finish(outcome_view(outcome))),
{
    run.phase = SyncPhase::Finished;
    let ghost before = acts@;
    acts.push(SyncAction::Finish(outcome));
    assert(actions_view(acts@) =~= actions_view(before).push(ActionView::Finish(outcome_view(outcome))));
}

fn continue_after_compare(run: &mut SyncRun, acts: &mut Vec<SyncAction>)
    requires
        old(acts)@.len() == 0,
    ensures
        (final(run)@, actions_view(final(acts)@)) == after_compare(old(run)@),
{
    if run.is_initial && !run.first_run_sync_done {
        run.phase = SyncPhase::AwaitFirstDownload;
        acts.push(log("[SYNC] Первая синхронизация..."));
        acts.push(SyncAction::Download);
    } else {
        run.phase = SyncPhase::AwaitRemoteTime;
        acts.push(SyncAction::FetchRemoteTime);
    }
    assert(actions_view(acts@) =~= after_compare(old(run)@).1);
}

impl SyncRun {
    /// A run not yet started.
    pub fn new(is_initial: bool, first_run_sync_done: bool) -> (r: SyncRun)
        ensures
            r@ == (RunView {
                phase: PhaseView::Idle,
                is_initial,
                first_run_sync_done,
                admin_confirmed: false,
            }),
    {
        SyncRun { phase: SyncPhase::Idle, is_initial, first_run_sync_done, admin_confirmed: false }
    }

    /// Whether the run is over.
    pub fn is_finished(&self) -> (r: bool)
        ensures
            r == (self@.phase is Finished),
    {
        match self.phase {
            SyncPhase::Finished => true,
            _ => false,
        }
    }
}

/// Takes the outcome of the work a run asked for and decides what follows:
/// the new state of the run, then the log lines to show followed by the next
/// piece of work (exactly as [`step_spec`] says).
#[verifier::rlimit(50)]
pub fn sync_step(run: &mut SyncRun, event: SyncEvent) -> (acts: Vec<SyncAction>)
    requires
        accepts(old(run)@.phase, event),
    ensures
        (final(run)@, actions_view(acts@)) == step_spec(old(run)@, event),
{
    let mut acts: Vec<SyncAction> = Vec::new();
    let ghost s = run@;
    match event {
        SyncEvent::Begin => {
            run.phase = SyncPhase::AwaitLocalText;
            if run.is_initial {
                acts.push(log("[SYNC] Сверка базы данных с облаком..."));
            }
            acts.push(SyncAction::ReadLocalText);
            assert(actions_view(acts@) =~= step_spec(s, SyncEvent::Begin).1);
        },
        SyncEvent::LocalText(text) => match text {
            Some(t) => {
                let local_sha = calculate_github_sha(t.as_str());
                run.phase = SyncPhase::AwaitRemoteSha { local_sha };
                acts.push(SyncAction::FetchRemoteSha);
                assert(actions_view(acts@) =~= seq![ActionView::FetchRemoteSha]);
            },
            None => continue_after_compare(run, &mut acts),
        },
        SyncEvent::RemoteAnswer(answer) => {
            let same: bool = match &answer {
                Ok(Some(json)) => match &run.phase {
                    SyncPhase::AwaitRemoteSha { local_sha } => {
                        let r = remote_sha(json);
                        r == *local_sha
                    },
                    _ => false,
                },
                _ => false,
            };
            match answer {
                Err(msg) => finish_run(run, Err(msg), &mut acts),
                Ok(_) => if same {
                    if run.is_initial {
                        acts.push(log("[OK] Файлы идентичны."));
                    }
                    finish_run(run, Ok(()), &mut acts);
                    assert(actions_view(acts@) =~= step_spec(s, event).1);
                } else {
                    continue_after_compare(run, &mut acts);
                },
            }
        },
        SyncEvent::Downloaded(d) => {
            let first: bool = match run.phase {
                SyncPhase::AwaitFirstDownload => true,
                _ => false,
            };
            match d {
                Err(msg) => finish_run(run, Err(msg), &mut acts),
                Ok(text) => {
                    run.phase = if first { SyncPhase::AwaitFirstWrite } else { SyncPhase::AwaitWrite };
                    acts.push(SyncAction::WriteDb(text));
                    assert(actions_view(acts@) =~= step_spec(s, event).1);
                },
            }
        },
        SyncEvent::Written(w) => {
            let first: bool = match run.phase {
                SyncPhase::AwaitFirstWrite => true,
                _ => false,
            };
            match w {
                Err(msg) => finish_run(run, Err(msg), &mut acts),
                Ok(()) => if first {
                    run.phase = SyncPhase::AwaitConfigStore;
                    run.first_run_sync_done = true;
                    acts.push(SyncAction::StoreConfig);
                    assert(actions_view(acts@) =~= seq![ActionView::StoreConfig]);
                } else {
                    acts.push(log("[SUCCESS] Локальная база успешно обновлена."));
                    finish_run(run, Ok(()), &mut acts);
                    assert(actions_view(acts@) =~= step_spec(s, event).1);
                },
            }
        },
        SyncEvent::ConfigStored => {
            acts.push(log("[SUCCESS] База синхронизирована с облаком."));
            finish_run(run, Ok(()), &mut acts);
            assert(actions_view(acts@) =~= step_spec(s, event).1);
        },
        SyncEvent::RemoteTime(t) => {
            let remote: u64 = match t {
                Some(x) => x,
                None => 0,
            };
            run.phase = SyncPhase::AwaitLocalTime { remote };
            acts.push(SyncAction::ReadLocalTime);
            assert(actions_view(acts@) =~= seq![ActionView::ReadLocalTime]);
        },
        SyncEvent::LocalTime(local) => {
            let remote: u64 = match run.phase {
                SyncPhase::AwaitLocalTime { remote } => remote,
                _ => 0,
            };
            let d: i64 = (local as i64) - (remote as i64);
            let gap: i64 = if d < 0 { -d } else { d };
            assert(gap == time_gap(local, remote));
            if gap > 5 && remote > local {
                run.phase = SyncPhase::AwaitDownload;
                acts.push(log("[SYNC] В облаке версия новее. Загрузка..."));
                acts.push(SyncAction::Download);
                assert(actions_view(acts@) =~= step_spec(s, event).1);
            } else if gap > 5 && local > remote {
                run.phase = SyncPhase::AwaitAdminProbe { local, remote };
                acts.push(SyncAction::ProbeAdminMode);
                assert(actions_view(acts@) =~= step_spec(s, event).1);
            } else {
                finish_run(run, Ok(()), &mut acts);
                assert(actions_view(acts@) =~= step_spec(s, event).1);
            }
        },
        SyncEvent::AdminMode(admin) => {
            let (local, remote): (u64, u64) = match run.phase {
                SyncPhase::AwaitAdminProbe { local, remote } => (local, remote),
                _ => (0, 0),
            };
            if admin {
                run.phase = SyncPhase::AwaitUploadText { local, remote };
                run.admin_confirmed = true;
                acts.push(log("[SYNC] Локальная база новее. Отправка..."));
                acts.push(SyncAction::ReadForUpload);
                assert(actions_view(acts@) =~= step_spec(s, event).1);
            } else {
                finish_run(run, Ok(()), &mut acts);
            }
        },
        SyncEvent::UploadText(text, stamp) => {
            let (local, remote): (u64, u64) = match run.phase {
                SyncPhase::AwaitUploadText { local, remote } => (local, remote),
                _ => (0, 0),
            };
            match text {
                Err(msg) => finish_run(run, Err(msg), &mut acts),
                Ok(content) => {
                    let message = crate::github::upload_commit_message(stamp.as_str());
                    run.phase = SyncPhase::AwaitUpload { local, remote };
                    acts.push(SyncAction::Upload { content, message });
                    assert(actions_view(acts@) =~= step_spec(s, event).1);
                },
            }
        },
        SyncEvent::Uploaded(u) => match u {
            Err(msg) => finish_run(run, Err(msg), &mut acts),
            Ok(()) => {
                acts.push(log("[SUCCESS] Облако успешно обновлено."));
                finish_run(run, Ok(()), &mut acts);
                assert(actions_view(acts@) =~= step_spec(s, event).1);
            },
        },
    }
    acts
}


// ----------------------------------------------------------------------------
// Laws of a run

/// What every state a run reaches satisfies.
pub open spec fn run_inv(s: RunView) -> bool {
    match s.phase {
        PhaseView::AwaitFirstDownload => s.is_initial && !s.first_run_sync_done,
        PhaseView::AwaitFirstWrite => s.is_initial && !s.first_run_sync_done,
        PhaseView::AwaitConfigStore => s.is_initial && s.first_run_sync_done,
        PhaseView::AwaitAdminProbe(local, remote) => local > remote && time_gap(local, remote) > 5,
        PhaseView::AwaitUploadText(local, remote) => local > remote && time_gap(local, remote) > 5
            && s.admin_confirmed,
        PhaseView::AwaitUpload(local, remote) => local > remote && time_gap(local, remote) > 5
            && s.admin_confirmed,
        _ => true,
    }
}

/// Whether a list of actions asks for an upload.
pub open spec fn asks_upload(acts: Seq<ActionView>) -> bool {
    exists|i: int| 0 <= i < acts.len() && #[trigger] acts[i] is Upload
}

/// Whether a list of actions asks for a download.
pub open spec fn asks_download(acts: Seq<ActionView>) -> bool {
    exists|i: int| 0 <= i < acts.len() && #[trigger] acts[i] is Download
}

/// Whether a list of actions changes a copy: a download, a write or an upload.
pub open spec fn asks_transfer(acts: Seq<ActionView>) -> bool {
    exists|i: int| 0 <= i < acts.len() && (#[trigger] acts[i] is Download || acts[i] is WriteDb || acts[i] is Upload)
}

/// The message an outcome carries where it reports a failure.
pub open spec fn failure_of(e: SyncEvent) -> Option<Seq<char>> {
    match e {
        SyncEvent::RemoteAnswer(Err(m)) => Some(m@),
        SyncEvent::Downloaded(Err(m)) => Some(m@),
        SyncEvent::Written(Err(m)) => Some(m@),
        SyncEvent::UploadText(Err(m), _) => Some(m@),
        SyncEvent::Uploaded(Err(m)) => Some(m@),
        _ => None,
    }
}

/// A run starts in a state that satisfies the run invariant.
pub proof fn law_new_run_satisfies_invariant(is_initial: bool, first_run_sync_done: bool)
    ensures
        run_inv(RunView { phase: PhaseView::Idle, is_initial, first_run_sync_done, admin_confirmed: false }),
{
}

/// Every step keeps the run invariant.
pub proof fn law_step_keeps_invariant(s: RunView, e: SyncEvent)
    requires
        run_inv(s),
        accepts(s.phase, e),
    ensures
        run_inv(step_spec(s, e).0),
{
}

/// An upload is asked for only by a run that has found the installation to
/// be an admin one and the local copy more than five seconds newer than the
/// remote one.
pub proof fn law_upload_only_from_newer_local_copy_in_admin_mode(s: RunView, e: SyncEvent)
    requires
        run_inv(s),
        accepts(s.phase, e),
        asks_upload(step_spec(s, e).1),
    ensures
        s.admin_confirmed,
        s.phase matches PhaseView::AwaitUploadText(local, remote) && local > remote && time_gap(local, remote) > 5,
{
    let acts = step_spec(s, e).1;
    let i = choose|i: int| 0 <= i < acts.len() && #[trigger] acts[i] is Upload;
    assert(acts[i] is Upload);
}

/// A download is asked for only on the first initial run of an installation
/// whose copies differ, or where the remote copy is more than five seconds
/// newer than the local one.
pub proof fn law_download_only_on_first_run_or_newer_remote(s: RunView, e: SyncEvent)
    requires
        accepts(s.phase, e),
        asks_download(step_spec(s, e).1),
    ensures
        (s.is_initial && !s.first_run_sync_done && (s.phase is AwaitLocalText || s.phase is AwaitRemoteSha))
            || (s.phase matches PhaseView::AwaitLocalTime(remote) && e matches SyncEvent::LocalTime(local)
                && remote > local && time_gap(local, remote) > 5),
{
    let acts = step_spec(s, e).1;
    let i = choose|i: int| 0 <= i < acts.len() && #[trigger] acts[i] is Download;
    assert(acts[i] is Download);
}

/// When GitHub's copy has the object id of the local text, the run ends
/// successfully without changing either copy.
pub proof fn law_identical_copies_are_left_alone(s: RunView, local_text: String, answer: JsonValue)
    requires
        s.phase == PhaseView::AwaitRemoteSha(github_sha(local_text@)),
        remote_sha_of(answer) == github_sha(local_text@),
    ensures
        ({
            let (next, acts) = step_spec(s, SyncEvent::RemoteAnswer(Ok(Some(answer))));
            &&& next.phase is Finished
            &&& acts.last() == ActionView::Finish(Ok(()))
            &&& !asks_transfer(acts)
        }),
{
    let (next, acts) = step_spec(s, SyncEvent::RemoteAnswer(Ok(Some(answer))));
    if asks_transfer(acts) {
        let i = choose|i: int| 0 <= i < acts.len() && (#[trigger] acts[i] is Download || acts[i] is WriteDb || acts[i] is Upload);
        assert(false);
    }
}

/// The first-synchronisation flag is never cleared, and it is set only when
/// the first download has been written.
pub proof fn law_first_sync_flag_set_once(s: RunView, e: SyncEvent)
    requires
        accepts(s.phase, e),
    ensures
        s.first_run_sync_done ==> step_spec(s, e).0.first_run_sync_done,
        !s.first_run_sync_done && step_spec(s, e).0.first_run_sync_done ==> (s.phase is AwaitFirstWrite
            && (e matches SyncEvent::Written(Ok(_)))),
{
}

/// A failed piece of work ends the run at once with that failure.
pub proof fn law_failure_ends_run(s: RunView, e: SyncEvent)
    requires
        accepts(s.phase, e),
        failure_of(e) is Some,
    ensures
        step_spec(s, e).0.phase is Finished,
        step_spec(s, e).1 == seq![ActionView::Finish(Err(failure_of(e)->0))],
{
}

/// Each step asks for exactly one piece of work, after its log lines; the
/// work is to finish exactly when the run is over.
pub proof fn law_one_request_per_step(s: RunView, e: SyncEvent)
    requires
        accepts(s.phase, e),
    ensures
        ({
            let (next, acts) = step_spec(s, e);
            &&& acts.len() >= 1
            &&& forall|i: int| 0 <= i < acts.len() - 1 ==> #[trigger] acts[i] is Log
            &&& !(acts.last() is Log)
            &&& (acts.last() is Finish <==> next.phase is Finished)
        }),
{
}

/// A finished run takes no further outcome.
pub proof fn law_finished_run_is_over(s: RunView, e: SyncEvent)
    requires
        s.phase is Finished,
    ensures
        !accepts(s.phase, e),
{
}


// ----------------------------------------------------------------------------
// Laws of a whole run

/// The state and all the actions after a run takes the outcomes `es`, in order.
pub open spec fn run_events(s: RunView, es: Seq<SyncEvent>) -> (RunView, Seq<ActionView>)
    decreases es.len(),
{
    if es.len() == 0 {
        (s, Seq::empty())
    } else {
        let (s1, a1) = step_spec(s, es[0]);
        let (sn, an) = run_events(s1, es.drop_first());
        (sn, a1 + an)
    }
}

/// Whether a run takes each of the outcomes `es` in turn.
pub open spec fn all_accepted(s: RunView, es: Seq<SyncEvent>) -> bool
    decreases es.len(),
{
    es.len() == 0 || (accepts(s.phase, es[0]) && all_accepted(step_spec(s, es[0]).0, es.drop_first()))
}

/// Whether a list of actions ends a run with a failure.
pub open spec fn asks_failure(acts: Seq<ActionView>) -> bool {
    exists|i: int| 0 <= i < acts.len() && #[trigger] acts[i] matches ActionView::Finish(Err(_))
}

/// A run not yet started.
pub open spec fn fresh_run(s: RunView) -> bool {
    s.phase is Idle && !s.admin_confirmed
}

proof fn lemma_asks_concat(a: Seq<ActionView>, b: Seq<ActionView>)
    ensures
        asks_upload(a + b) <==> asks_upload(a) || asks_upload(b),
        asks_failure(a + b) <==> asks_failure(a) || asks_failure(b),
{
    let c = a + b;
    if asks_upload(c) {
        let i = choose|i: int| 0 <= i < c.len() && #[trigger] c[i] is Upload;
        if i < a.len() {
            assert(a[i] == c[i]);
        } else {
            assert(b[i - a.len()] == c[i]);
        }
    }
    if asks_upload(a) {
        let i = choose|i: int| 0 <= i < a.len() && #[trigger] a[i] is Upload;
        assert(c[i] == a[i]);
    }
    if asks_upload(b) {
        let i = choose|i: int| 0 <= i < b.len() && #[trigger] b[i] is Upload;
        assert(c[i + a.len()] == b[i]);
    }
    if asks_failure(c) {
        let i = choose|i: int| 0 <= i < c.len() && #[trigger] c[i] matches ActionView::Finish(Err(_));
        if i < a.len() {
            assert(a[i] == c[i]);
        } else {
            assert(b[i - a.len()] == c[i]);
        }
    }
    if asks_failure(a) {
        let i = choose|i: int| 0 <= i < a.len() && #[trigger] a[i] matches ActionView::Finish(Err(_));
        assert(c[i] == a[i]);
    }
    if asks_failure(b) {
        let i = choose|i: int| 0 <= i < b.len() && #[trigger] b[i] matches ActionView::Finish(Err(_));
        assert(c[i + a.len()] == b[i]);
    }
}

proof fn lemma_finished_takes_nothing(s: RunView, es: Seq<SyncEvent>)
    requires
        s.phase is Finished,
        all_accepted(s, es),
    ensures
        es.len() == 0,
{
}

/// The first-synchronisation flag over the rest of a run, where `f0` is
/// its value when the run started.
proof fn lemma_run_flag(s: RunView, es: Seq<SyncEvent>, f0: bool)
    requires
        run_inv(s),
        all_accepted(s, es),
        f0 ==> s.first_run_sync_done,
        !f0 && s.first_run_sync_done ==> s.is_initial && (s.phase is AwaitConfigStore || s.phase is Finished),
    ensures
        ({
            let (sn, acts) = run_events(s, es);
            &&& sn.is_initial == s.is_initial
            &&& f0 ==> sn.first_run_sync_done
            &&& !f0 && sn.first_run_sync_done ==> sn.is_initial && (sn.phase is AwaitConfigStore || sn.phase is Finished)
            &&& !f0 && sn.first_run_sync_done ==> !asks_failure(acts)
        }),
    decreases es.len(),
{
    if es.len() > 0 {
        let (s1, a1) = step_spec(s, es[0]);
        let rest = es.drop_first();
        law_step_keeps_invariant(s, es[0]);
        law_first_sync_flag_set_once(s, es[0]);
        lemma_run_flag(s1, rest, f0);
        let (sn, an) = run_events(s1, rest);
        lemma_asks_concat(a1, an);
        if !f0 && sn.first_run_sync_done {
            if asks_failure(a1) {
                let i = choose|i: int| 0 <= i < a1.len() && #[trigger] a1[i] matches ActionView::Finish(Err(_));
                assert(s1.phase is Finished);
                lemma_finished_takes_nothing(s1, rest);
                assert(sn == s1);
                assert(!s.first_run_sync_done);
                assert(false);
            }
        }
    }
}

/// Over a whole run, the first-synchronisation flag is never cleared; it is
/// set only on an initial run, and a run that sets it never ends in failure.
pub proof fn law_run_sets_first_sync_flag_only_on_success(s: RunView, es: Seq<SyncEvent>)
    requires
        fresh_run(s),
        all_accepted(s, es),
    ensures
        ({
            let (sn, acts) = run_events(s, es);
            &&& s.first_run_sync_done ==> sn.first_run_sync_done
            &&& sn.first_run_sync_done && !s.first_run_sync_done ==> s.is_initial && !asks_failure(acts)
        }),
{
    lemma_run_flag(s, es, s.first_run_sync_done);
}

proof fn lemma_run_no_upload(s: RunView, es: Seq<SyncEvent>)
    requires
        run_inv(s),
        !s.admin_confirmed,
        all_accepted(s, es),
        forall|i: int| 0 <= i < es.len() ==> !(#[trigger] es[i] matches SyncEvent::AdminMode(true)),
    ensures
        !asks_upload(run_events(s, es).1),
    decreases es.len(),
{
    if es.len() > 0 {
        let (s1, a1) = step_spec(s, es[0]);
        let rest = es.drop_first();
        law_step_keeps_invariant(s, es[0]);
        if asks_upload(a1) {
            law_upload_only_from_newer_local_copy_in_admin_mode(s, es[0]);
        }
        assert(!(es[0] matches SyncEvent::AdminMode(true)));
        assert forall|i: int| 0 <= i < rest.len() implies !(#[trigger] rest[i] matches SyncEvent::AdminMode(true)) by {
            assert(rest[i] == es[i + 1]);
        }
        lemma_run_no_upload(s1, rest);
        lemma_asks_concat(a1, run_events(s1, rest).1);
    }
}

/// A run in which every admin-mode probe answers that the installation is
/// not an admin one never asks for an upload, whatever the times: a user
/// installation leaves the remote copy alone.
pub proof fn law_user_installation_never_uploads(s: RunView, es: Seq<SyncEvent>)
    requires
        fresh_run(s),
        all_accepted(s, es),
        forall|i: int| 0 <= i < es.len() ==> !(#[trigger] es[i] matches SyncEvent::AdminMode(true)),
    ensures
        !asks_upload(run_events(s, es).1),
{
    lemma_run_no_upload(s, es);
}

/// Whether GitHub's answer shows its copy to differ from a local text whose
/// object id is `local_sha`: its object id is another one, or GitHub
/// answered with an unsuccessful status.
pub open spec fn copies_differ(local_sha: Seq<char>, e: SyncEvent) -> bool {
    match e {
        SyncEvent::RemoteAnswer(Ok(Some(json))) => remote_sha_of(json) != local_sha,
        SyncEvent::RemoteAnswer(Ok(None)) => true,
        _ => false,
    }
}

/// Whether event `e`, in a run that stands at `s`, shows that the local copy
/// is missing or differs from GitHub's.
pub open spec fn shows_difference(s: RunView, e: SyncEvent) -> bool {
    ||| (s.phase is AwaitLocalText && e == SyncEvent::LocalText(None))
    ||| (s.phase matches PhaseView::AwaitRemoteSha(local_sha) && copies_differ(local_sha, e))
}

/// On the initial run of an installation whose first synchronisation is not
/// done, a local copy that is missing or differs from GitHub's is replaced by
/// GitHub's: the step logs the first-synchronisation line, asks for the
/// download, and waits for it; nothing else changes.
pub proof fn law_first_initial_run_downloads_when_copies_differ(s: RunView, e: SyncEvent)
    requires
        s.is_initial,
        !s.first_run_sync_done,
        shows_difference(s, e),
    ensures
        step_spec(s, e).1 == seq![ActionView::Log("[SYNC] Первая синхронизация..."@), ActionView::Download],
        step_spec(s, e).0 == (RunView { phase: PhaseView::AwaitFirstDownload, ..s }),
{
}

/// On any other run, a local copy that is missing or differs from GitHub's
/// leads to comparing the times of the two copies: the step only asks for the
/// time of the last remote change and waits for it.
pub proof fn law_later_runs_compare_times_when_copies_differ(s: RunView, e: SyncEvent)
    requires
        !(s.is_initial && !s.first_run_sync_done),
        shows_difference(s, e),
    ensures
        step_spec(s, e).1 == seq![ActionView::FetchRemoteTime],
        step_spec(s, e).0 == (RunView { phase: PhaseView::AwaitRemoteTime, ..s }),
{
}

} // verus!
