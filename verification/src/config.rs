//! The settings of the manager, the layout of a game folder it relies on,
//! and the rules by which new settings are taken.

use vstd::prelude::*;
use vstd::string::*;
use crate::text::{
    is_blank, is_whitespace, lemma_remove_absent_char, lemma_remove_char_is_filter, lemma_trim_end_ws_of_padded,
    lemma_trim_end_ws_shape, lemma_trim_start_ws_of_padded, lemma_trim_start_ws_shape, other_than, remove_char,
    trim, trim_end_ws, trim_start_ws, trim_ws, without_char,
};

verus! {

/// The stored settings of the manager.
#[derive(Debug, PartialEq)]
pub struct AppConfig {
    /// The game folder.
    pub game_path: String,
    /// The GitHub token used for uploads.
    pub github_token: String,
    /// Whether the user chose read-only mode.
    pub force_user_mode: bool,
    /// Name of the character last seen logging out.
    pub last_char_name: String,
    /// Logout time of that character, as text.
    pub last_char_logout: String,
    /// Whether the first download from GitHub has been done on this machine.
    pub first_run_sync_done: bool,
}

impl Default for AppConfig {
    /// Empty texts and cleared flags.
    fn default() -> (r: Self)
        ensures
            r.game_path@.len() == 0,
            r.github_token@.len() == 0,
            !r.force_user_mode,
            r.last_char_name@.len() == 0,
            r.last_char_logout@.len() == 0,
            !r.first_run_sync_done,
    {
        AppConfig {
            game_path: String::new(),
            github_token: String::new(),
            force_user_mode: false,
            last_char_name: String::new(),
            last_char_logout: String::new(),
            first_run_sync_done: false,
        }
    }
}

// ----------------------------------------------------------------------------
// The game folder

/// The folder whose presence marks a game installation.
pub open spec fn wtf_dir() -> Seq<char> {
    "WTF"@
}

/// The addon folder whose presence marks an admin installation.
pub open spec fn admin_addon_dir() -> Seq<char> {
    "Interface\\AddOns\\CharacterStatusLogger"@
}

/// The item database, relative to the game folder.
pub open spec fn db_file() -> Seq<char> {
    "Interface\\AddOns\\ItemStorageBrowser\\ItemStorageDB.lua"@
}

/// The item database, relative to the game folder.
pub fn db_file_path() -> (r: String)
    ensures
        r@ == db_file(),
{
    "Interface\\AddOns\\ItemStorageBrowser\\ItemStorageDB.lua".to_owned()
}

/// Whether `path` is a game folder: it asks `entry_exists(path, "WTF")`,
/// which tells whether that entry exists under the folder, and answers it.
pub fn is_valid_wow_path<F: Fn(&str, &str) -> bool>(path: &str, entry_exists: F) -> (r: bool)
    requires
        forall|p: &str, e: &str| #[trigger] entry_exists.requires((p, e)),
    ensures
        exists|e: &str| e@ == wtf_dir() && #[trigger] entry_exists.ensures((path, e), r),
{
    let e: &str = "WTF";
    let r = entry_exists(path, e);
    assert(entry_exists.ensures((path, e), r));
    r
}

/// Whether `game_path` is an admin installation: it asks `entry_exists`
/// whether the logger addon's folder exists under it, and answers it.
pub fn is_admin_mode<F: Fn(&str, &str) -> bool>(game_path: &str, entry_exists: F) -> (r: bool)
    requires
        forall|p: &str, e: &str| #[trigger] entry_exists.requires((p, e)),
    ensures
        exists|e: &str| e@ == admin_addon_dir() && #[trigger] entry_exists.ensures((game_path, e), r),
{
    let e: &str = "Interface\\AddOns\\CharacterStatusLogger";
    let r = entry_exists(game_path, e);
    assert(entry_exists.ensures((game_path, e), r));
    r
}

// ----------------------------------------------------------------------------
// Taking new settings

/// A request to change the settings, as the settings form sends it.
#[derive(Debug, PartialEq)]
pub struct SettingsRequest {
    /// The game folder typed in; empty to keep the current one.
    pub path: String,
    /// The token typed in; blank to keep the current one.
    pub token: String,
    /// Whether read-only mode is chosen.
    pub user_mode: bool,
}

/// Why new settings were refused.
#[derive(PartialEq, Eq, Debug, Clone, Copy, Structural)]
pub enum SettingsError {
    /// The game folder is not a game installation.
    InvalidPath,
    /// GitHub refused the token.
    InvalidToken,
}

/// The code the settings form receives for a refusal.
pub open spec fn error_code_text(e: SettingsError) -> Seq<char> {
    match e {
        SettingsError::InvalidPath => "INVALID_PATH"@,
        SettingsError::InvalidToken => "INVALID_TOKEN"@,
    }
}

impl SettingsError {
    /// The code the settings form receives for this refusal.
    pub fn code(&self) -> (r: String)
        ensures
            r@ == error_code_text(*self),
    {
        match self {
            SettingsError::InvalidPath => "INVALID_PATH".to_owned(),
            SettingsError::InvalidToken => "INVALID_TOKEN".to_owned(),
        }
    }
}

/// What taking new settings asks to be done next.
#[derive(Debug, PartialEq)]
pub enum SettingsAction {
    /// Find out whether this folder is a game installation.
    CheckPath(String),
    /// Ask GitHub whether this token is valid.
    ValidateToken(String),
    /// Store the settings as they now stand.
    Store,
    /// Answer the form now, without storing.
    Reply(Result<(), SettingsError>),
}

/// The game folder as typed, trimmed and without double quotes.
pub open spec fn cleaned_path(path: Seq<char>) -> Seq<char> {
    remove_char(trim_ws(path), '"')
}

/// The fields of the settings that taking new settings may change.
pub open spec fn same_except_token_and_mode(a: AppConfig, b: AppConfig) -> bool {
    &&& a.game_path@ == b.game_path@
    &&& a.last_char_name@ == b.last_char_name@
    &&& a.last_char_logout@ == b.last_char_logout@
    &&& a.first_run_sync_done == b.first_run_sync_done
}

/// The whole of the settings unchanged.
pub open spec fn unchanged(a: AppConfig, b: AppConfig) -> bool {
    &&& same_except_token_and_mode(a, b)
    &&& a.github_token@ == b.github_token@
    &&& a.force_user_mode == b.force_user_mode
}

/// The token part of taking new settings, once the folder is settled:
/// read-only mode clears the token; a non-blank token is first validated;
/// otherwise the settings are stored as they are.
pub open spec fn token_stage_ok(old_cfg: AppConfig, new_cfg: AppConfig, req: SettingsRequest, a: SettingsAction) -> bool {
    &&& same_except_token_and_mode(old_cfg, new_cfg)
    &&& if req.user_mode {
        &&& new_cfg.force_user_mode
        &&& new_cfg.github_token@.len() == 0
        &&& a is Store
    } else if trim_ws(req.token@).len() > 0 {
        &&& unchanged(old_cfg, new_cfg)
        &&& a matches SettingsAction::ValidateToken(t) && t@ == req.token@
    } else {
        &&& unchanged(old_cfg, new_cfg)
        &&& a is Store
    }
}

fn token_stage(cfg: &mut AppConfig, req: &SettingsRequest) -> (a: SettingsAction)
    ensures
        token_stage_ok(*old(cfg), *final(cfg), *req, a),
{
    if req.user_mode {
        cfg.force_user_mode = true;
        cfg.github_token = String::new();
        SettingsAction::Store
    } else if !is_blank(req.token.as_str()) {
        SettingsAction::ValidateToken(req.token.clone())
    } else {
        SettingsAction::Store
    }
}

/// What the first step of taking new settings does (see [`settings_begin`]).
pub open spec fn begin_step(c0: AppConfig, c1: AppConfig, req: SettingsRequest, a: SettingsAction) -> bool {
    &&& req.path@.len() > 0 ==> unchanged(c0, c1)
        && (a matches SettingsAction::CheckPath(p) && p@ == cleaned_path(req.path@))
    &&& req.path@.len() == 0 ==> token_stage_ok(c0, c1, req, a)
}

/// What the step after the folder check does (see [`settings_after_path_check`]).
pub open spec fn path_step(c0: AppConfig, c1: AppConfig, req: SettingsRequest, checked: String, valid: bool, a: SettingsAction) -> bool {
    &&& !valid ==> unchanged(c0, c1) && a == SettingsAction::Reply(Err(SettingsError::InvalidPath))
    &&& valid ==> token_stage_ok(AppConfig { game_path: checked, ..c0 }, c1, req, a)
}

/// What the step after the token check does (see [`settings_after_token_check`]).
pub open spec fn token_step(c0: AppConfig, c1: AppConfig, req: SettingsRequest, valid: bool, a: SettingsAction) -> bool {
    &&& !valid ==> unchanged(c0, c1) && a == SettingsAction::Reply(Err(SettingsError::InvalidToken))
    &&& valid ==> same_except_token_and_mode(c0, c1)
        && c1.github_token@ == trim_ws(req.token@) && !c1.force_user_mode
        && a is Store
}

/// The first step of taking new settings: a typed folder is first checked
/// (in its cleaned form) and nothing changes yet; without one, the token
/// part follows at once.
pub fn settings_begin(cfg: &mut AppConfig, req: &SettingsRequest) -> (a: SettingsAction)
    ensures
        begin_step(*old(cfg), *final(cfg), *req, a),
{
    if req.path.as_str().is_empty() {
        token_stage(cfg, req)
    } else {
        let t = trim(req.path.as_str());
        SettingsAction::CheckPath(without_char(t.as_str(), '"'))
    }
}

/// The step after the folder check: a folder that is no game installation
/// refuses the settings and changes nothing; otherwise it is taken and the
/// token part follows.
pub fn settings_after_path_check(cfg: &mut AppConfig, req: &SettingsRequest, checked: String, valid: bool) -> (a: SettingsAction)
    ensures
        path_step(*old(cfg), *final(cfg), *req, checked, valid, a),
{
    if !valid {
        return SettingsAction::Reply(Err(SettingsError::InvalidPath));
    }
    cfg.game_path = checked;
    token_stage(cfg, req)
}

/// The step after the token check: a refused token refuses the settings;
/// an accepted one is stored trimmed and leaves read-only mode.
pub fn settings_after_token_check(cfg: &mut AppConfig, req: &SettingsRequest, valid: bool) -> (a: SettingsAction)
    ensures
        token_step(*old(cfg), *final(cfg), *req, valid, a),
{
    if !valid {
        return SettingsAction::Reply(Err(SettingsError::InvalidToken));
    }
    cfg.github_token = trim(req.token.as_str());
    cfg.force_user_mode = false;
    SettingsAction::Store
}


/// A whole exchange of new settings that ends in storing them keeps the
/// remembered character and the first-synchronisation flag; it keeps the
/// folder unless one was typed, then takes the typed one cleaned; read-only
/// mode clears the token; a non-blank token is taken trimmed and leaves
/// read-only mode; a blank one keeps the token and the mode.
/// `c0` is the loaded settings, `c1`, `c2`, `c3` the settings after each
/// step, `a1`, `a2`, `a3` what each step asked for; a step that is not
/// asked for leaves the settings and the request as they were.
pub proof fn law_settings_exchange(
    req: SettingsRequest,
    c0: AppConfig,
    c1: AppConfig,
    a1: SettingsAction,
    checked: String,
    path_valid: bool,
    c2: AppConfig,
    a2: SettingsAction,
    token_valid: bool,
    c3: AppConfig,
    a3: SettingsAction,
)
    requires
        begin_step(c0, c1, req, a1),
        a1 matches SettingsAction::CheckPath(p) ==> p@ == checked@ && path_step(c1, c2, req, checked, path_valid, a2),
        !(a1 is CheckPath) ==> c2 == c1 && a2 == a1,
        a2 is ValidateToken ==> token_step(c2, c3, req, token_valid, a3),
        !(a2 is ValidateToken) ==> c3 == c2 && a3 == a2,
        a3 is Store,
    ensures
        c3.last_char_name@ == c0.last_char_name@,
        c3.last_char_logout@ == c0.last_char_logout@,
        c3.first_run_sync_done == c0.first_run_sync_done,
        req.path@.len() == 0 ==> c3.game_path@ == c0.game_path@,
        req.path@.len() > 0 ==> c3.game_path@ == cleaned_path(req.path@),
        req.user_mode ==> c3.force_user_mode && c3.github_token@.len() == 0,
        !req.user_mode && trim_ws(req.token@).len() == 0 ==> c3.github_token@ == c0.github_token@
            && c3.force_user_mode == c0.force_user_mode,
        !req.user_mode && trim_ws(req.token@).len() > 0 ==> c3.github_token@ == trim_ws(req.token@)
            && !c3.force_user_mode,
{
}

/// The folder checked and stored is the typed text with its leading and
/// trailing whitespace cut off (`p[i..j]`, where all before `i` and all from
/// `j` on is whitespace and the text kept neither starts nor ends with it),
/// less every double quote: every other character, inner spaces included,
/// is kept in order, and no double quote is left.
pub proof fn law_cleaned_path_trims_and_unquotes(p: Seq<char>)
    ensures
        exists|i: int, j: int|
            0 <= i <= j <= p.len()
            && (forall|k: int| 0 <= k < i ==> is_whitespace(#[trigger] p[k]))
            && (forall|k: int| j <= k < p.len() ==> is_whitespace(#[trigger] p[k]))
            && (i < j ==> !is_whitespace(p[i]) && !is_whitespace(p[j - 1]))
            && cleaned_path(p) == #[trigger] p.subrange(i, j).filter(other_than('"')),
        forall|k: int| 0 <= k < cleaned_path(p).len() ==> #[trigger] cleaned_path(p)[k] != '"',
{
    let i = lemma_trim_start_ws_shape(p);
    let t = p.subrange(i, p.len() as int);
    let j0 = lemma_trim_end_ws_shape(t);
    let j = i + j0;
    assert(trim_ws(p) == t.subrange(0, j0));
    assert(t.subrange(0, j0) =~= p.subrange(i, j));
    assert forall|k: int| j <= k < p.len() implies is_whitespace(#[trigger] p[k]) by {
        assert(p[k] == t[k - i]);
    }
    if i < j {
        assert(p[j - 1] == t[j0 - 1]);
    }
    lemma_remove_char_is_filter(p.subrange(i, j), '"');
    let c = cleaned_path(p);
    assert forall|k: int| 0 <= k < c.len() implies #[trigger] c[k] != '"' by {
        p.subrange(i, j).lemma_filter_pred(other_than('"'), k);
    }
}

/// A folder typed with whitespace around it is taken as the text between:
/// `w1 + t + w2`, where `w1` and `w2` are whitespace and `t` holds no double
/// quote and neither starts nor ends with whitespace, is cleaned to `t`,
/// whatever spaces `t` holds inside.
pub proof fn law_cleaned_path_keeps_inner_text(w1: Seq<char>, t: Seq<char>, w2: Seq<char>)
    requires
        forall|k: int| 0 <= k < w1.len() ==> is_whitespace(#[trigger] w1[k]),
        forall|k: int| 0 <= k < w2.len() ==> is_whitespace(#[trigger] w2[k]),
        forall|k: int| 0 <= k < t.len() ==> #[trigger] t[k] != '"',
        t.len() > 0 ==> !is_whitespace(t[0]) && !is_whitespace(t.last()),
    ensures
        cleaned_path(w1 + t + w2) == t,
{
    if t.len() > 0 {
        assert(w1 + t + w2 == w1 + (t + w2));
        assert((t + w2)[0] == t[0]);
        lemma_trim_start_ws_of_padded(w1, t + w2);
        lemma_trim_end_ws_of_padded(t, w2);
        lemma_remove_absent_char(t, '"');
    } else {
        let w = w1 + t + w2;
        assert forall|k: int| 0 <= k < w.len() implies is_whitespace(#[trigger] w[k]) by {
            if k < w1.len() {
                assert(w[k] == w1[k]);
            } else {
                assert(w[k] == w2[k - w1.len()]);
            }
        }
        lemma_trim_start_ws_of_padded(w, t);
        assert(w + t =~= w);
        assert(trim_end_ws(t) == t);
        assert(remove_char(t, '"') == t);
    }
}

/// A folder typed in double quotes, with whitespace around them, is taken
/// as the text inside the quotes, whitespace inside included.
pub proof fn law_cleaned_path_unquotes(w1: Seq<char>, t: Seq<char>, w2: Seq<char>)
    requires
        forall|k: int| 0 <= k < w1.len() ==> is_whitespace(#[trigger] w1[k]),
        forall|k: int| 0 <= k < w2.len() ==> is_whitespace(#[trigger] w2[k]),
        forall|k: int| 0 <= k < t.len() ==> #[trigger] t[k] != '"',
    ensures
        cleaned_path(w1 + seq!['"'] + t + seq!['"'] + w2) == t,
{
    let quote = seq!['"'];
    let q = quote + t + quote;
    assert(w1 + quote + t + quote + w2 == w1 + q + w2);
    assert(q[0] == '"');
    assert(q.last() == '"');
    lemma_trim_start_ws_of_padded(w1, q + w2);
    lemma_trim_end_ws_of_padded(q, w2);
    assert(w1 + q + w2 == w1 + (q + w2));
    let keep = other_than('"');
    lemma_remove_char_is_filter(q, '"');
    lemma_remove_char_is_filter(t, '"');
    lemma_remove_absent_char(t, '"');
    Seq::filter_distributes_over_add(quote + t, quote, keep);
    Seq::filter_distributes_over_add(quote, t, keep);
    assert(quote.filter(keep) =~= Seq::<char>::empty()) by {
        reveal_with_fuel(Seq::filter, 2);
    }
    assert(q.filter(keep) =~= t);
}

} // verus!
