//! Telling the user that a newer release of the application exists.

use vstd::prelude::*;
use vstd::string::*;
use crate::text::{concat_str, strip_leading, trim_start_char};

verus! {

#[verifier::external_type_specification]
#[verifier::external_body]
pub struct ExVersion(semver::Version);

#[verifier::external_type_specification]
#[verifier::external_body]
pub struct ExSemverError(semver::Error);

/// Whether `text` is a version the `semver` crate accepts.
pub uninterp spec fn semver_valid(text: Seq<char>) -> bool;

/// Whether the version `a` reads as orders above the version `b` reads as,
/// in the order of `semver::Version`.
pub uninterp spec fn semver_newer(a: Seq<char>, b: Seq<char>) -> bool;

/// The text `semver::Version` displays for the version `text` reads as.
pub uninterp spec fn semver_display(text: Seq<char>) -> Seq<char>;

/// `semver::Version::parse`: succeeds exactly on the texts the crate accepts.
#[verifier::external_body]
fn parse_semver(text: &str) -> (r: Result<semver::Version, semver::Error>)
    ensures
        r is Ok <==> semver_valid(text@),
{
    semver::Version::parse(text)
}

/// A version together with the text it was read from; it is built only by
/// [`ReleaseVersion::parse`].
pub struct ReleaseVersion {
    text: String,
    version: semver::Version,
}

impl ReleaseVersion {
    /// The text this version was read from.
    pub closed spec fn text(&self) -> Seq<char> {
        self.text@
    }

    /// Reads a version; `None` where `semver` refuses the text.
    pub fn parse(text: &str) -> (r: Option<ReleaseVersion>)
        ensures
            r is Some <==> semver_valid(text@),
            r matches Some(v) ==> v.text() == text@,
    {
        match parse_semver(text) {
            Ok(version) => Some(ReleaseVersion { text: text.to_owned(), version }),
            Err(_) => None,
        }
    }
}

/// `semver::Version`'s `>`: whether `a` orders above `b`. Each version was
/// parsed from its `text()`, the only way a `ReleaseVersion` is made.
#[verifier::external_body]
fn version_newer(a: &ReleaseVersion, b: &ReleaseVersion) -> (r: bool)
    ensures
        r == semver_newer(a.text(), b.text()),
{
    a.version > b.version
}

/// `semver::Version`'s display. The version was parsed from `v.text()`.
#[verifier::external_body]
fn version_display(v: &ReleaseVersion) -> (r: String)
    ensures
        r@ == semver_display(v.text()),
{
    v.version.to_string()
}

/// The line shown when the check for a new release begins.
pub fn version_banner(current: &str) -> (r: String)
    ensures
        r@ == "[INFO] Ваша версия: v"@ + current@ + ". Проверка обновлений..."@,
{
    let head = concat_str("[INFO] Ваша версия: v", current);
    concat_str(head.as_str(), ". Проверка обновлений...")
}

/// The line shown when the latest release could not be learned.
pub fn update_check_failed(reason: &str) -> (r: String)
    ensures
        r@ == "[WARN] Ошибка проверки обновлений: "@ + reason@,
{
    concat_str("[WARN] Ошибка проверки обновлений: ", reason)
}

/// The frame line around the announcement of a new release.
pub open spec fn update_rule() -> Seq<char> {
    "[UPDATE] =========================================="@
}

/// The lines shown once the versions are compared: an announcement of the
/// new version and its page, or that the installed version is current.
pub open spec fn update_lines_spec(newer: bool, shown: Seq<char>, url: Seq<char>) -> Seq<Seq<char>> {
    if newer {
        seq![
            update_rule(),
            "[UPDATE] ДОСТУПНА НОВАЯ ВЕРСИЯ: v"@ + shown,
            "[UPDATE] Ссылка: "@ + url,
            update_rule(),
        ]
    } else {
        seq!["[INFO] У вас установлена актуальная версия."@]
    }
}

/// The mathematical form of a list of lines.
pub open spec fn lines_view(v: Seq<String>) -> Seq<Seq<char>> {
    v.map_values(|s: String| s@)
}

/// The lines shown once the versions are compared (see [`update_lines_spec`]).
pub fn update_lines(newer: bool, shown: &str, url: &str) -> (r: Vec<String>)
    ensures
        lines_view(r@) == update_lines_spec(newer, shown@, url@),
{
    let mut r: Vec<String> = Vec::new();
    if newer {
        r.push("[UPDATE] ==========================================".to_owned());
        r.push(concat_str("[UPDATE] ДОСТУПНА НОВАЯ ВЕРСИЯ: v", shown));
        r.push(concat_str("[UPDATE] Ссылка: ", url));
        r.push("[UPDATE] ==========================================".to_owned());
    } else {
        r.push("[INFO] У вас установлена актуальная версия.".to_owned());
    }
    assert(lines_view(r@) =~= update_lines_spec(newer, shown@, url@));
    r
}

/// The lines shown about the latest release `latest_tag` (its leading `v`s
/// dropped) against the running version `current`: none unless both read as
/// versions; otherwise the lines of [`update_lines_spec`].
pub fn update_check_lines(current: &str, latest_tag: &str, release_url: &str) -> (r: Vec<String>)
    ensures
        ({
            let latest = trim_start_char(latest_tag@, 'v');
            if semver_valid(latest) && semver_valid(current@) {
                lines_view(r@) == update_lines_spec(
                    semver_newer(latest, current@),
                    semver_display(latest),
                    release_url@,
                )
            } else {
                r@.len() == 0
            }
        }),
{
    let latest_clean = strip_leading(latest_tag, 'v');
    match (ReleaseVersion::parse(latest_clean.as_str()), ReleaseVersion::parse(current)) {
        (Some(latest), Some(running)) => {
            let newer = version_newer(&latest, &running);
            let shown = version_display(&latest);
            update_lines(newer, shown.as_str(), release_url)
        },
        _ => Vec::new(),
    }
}

} // verus!
