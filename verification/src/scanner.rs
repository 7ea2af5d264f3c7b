//! Finding the character that logged out last, from the saved-variables
//! files that the `CharacterStatusLogger` addon writes for each account.
//!
//! Each file holds records of the form
//! `["Name-Realm"] = {` + whitespace + `["lastLogout"] = "YYYY-MM-DD HH:MM:SS",`;
//! the latest record of all files wins, the earliest one among equals.

use vstd::prelude::*;
use vstd::string::*;
use chrono::{Datelike, Timelike};
use crate::text::concat_str;

verus! {

// ----------------------------------------------------------------------------
// Logout times

/// A logout date and time: the `chrono::NaiveDateTime` read, with its
/// fields; `nanosecond` is 1_000_000_000 or more during a leap second. It is
/// made only by reading a text ([`LogoutTime::parse`]).
#[derive(Clone, Copy, PartialEq, Eq, Debug)]
pub struct LogoutTime {
    pub year: i32,
    pub month: u32,
    pub day: u32,
    pub hour: u32,
    pub minute: u32,
    pub second: u32,
    pub nanosecond: u32,
    value: chrono::NaiveDateTime,
}

#[verifier::external_type_specification]
#[verifier::external_body]
pub struct ExNaiveDateTime(chrono::NaiveDateTime);

/// The field ranges that every `NaiveDateTime` keeps.
pub closed spec fn logout_time_wf(t: LogoutTime) -> bool {
    &&& 1 <= t.month <= 12
    &&& 1 <= t.day <= 31
    &&& t.hour < 24
    &&& t.minute < 60
    &&& t.second < 60
    &&& t.nanosecond < 2_000_000_000
}

/// The fields of a logout time: year, month, day, hour, minute, second,
/// nanosecond.
pub closed spec fn fields_of(t: LogoutTime) -> (int, int, int, int, int, int, int) {
    (t.year as int, t.month as int, t.day as int, t.hour as int, t.minute as int, t.second as int, t.nanosecond as int)
}

/// Whether `a` is later than `b` (the order of `NaiveDateTime`).
pub closed spec fn later(a: LogoutTime, b: LogoutTime) -> bool {
    if a.year != b.year {
        a.year > b.year
    } else if a.month != b.month {
        a.month > b.month
    } else if a.day != b.day {
        a.day > b.day
    } else if a.hour != b.hour {
        a.hour > b.hour
    } else if a.minute != b.minute {
        a.minute > b.minute
    } else if a.second != b.second {
        a.second > b.second
    } else {
        a.nanosecond > b.nanosecond
    }
}

/// Whether `a` is later than `b`.
pub fn is_later(a: &LogoutTime, b: &LogoutTime) -> (r: bool)
    ensures
        r == later(*a, *b),
{
    if a.year != b.year {
        a.year > b.year
    } else if a.month != b.month {
        a.month > b.month
    } else if a.day != b.day {
        a.day > b.day
    } else if a.hour != b.hour {
        a.hour > b.hour
    } else if a.minute != b.minute {
        a.minute > b.minute
    } else if a.second != b.second {
        a.second > b.second
    } else {
        a.nanosecond > b.nanosecond
    }
}

/// The text chrono displays for the date and time `t` holds.
pub uninterp spec fn date_time_text(t: LogoutTime) -> Seq<char>;

/// `NaiveDateTime`'s display (`to_string`) of the date and time `t` holds.
#[verifier::external_body]
fn date_time_to_string(t: &LogoutTime) -> (r: String)
    ensures
        r@ == date_time_text(*t),
{
    t.value.to_string()
}

/// The text of a logout time, as `NaiveDateTime::to_string` gives it.
pub open spec fn logout_text(t: LogoutTime) -> Seq<char> {
    date_time_text(t)
}

/// The text of a logout time (`NaiveDateTime::to_string`).
pub fn logout_to_string(t: &LogoutTime) -> (r: String)
    ensures
        r@ == logout_text(*t),
{
    date_time_to_string(t)
}

// ----------------------------------------------------------------------------
// Outside calls

#[verifier::external_type_specification]
#[verifier::external_body]
pub struct ExRegex(regex::Regex);

#[verifier::external_type_specification]
#[verifier::external_body]
pub struct ExRegexError(regex::Error);

/// Whether `pattern` is a regular expression the `regex` crate accepts.
pub uninterp spec fn regex_accepts(pattern: Seq<char>) -> bool;

/// The capture groups (group 0 first; `None` for a group that took no part)
/// of each successive non-overlapping match of `pattern` in `text`.
pub uninterp spec fn regex_captures(pattern: Seq<char>, text: Seq<char>) -> Seq<Seq<Option<Seq<char>>>>;

/// The fields of the `NaiveDateTime` that `text` gives under the chrono
/// format `format`, `None` where it gives none.
pub uninterp spec fn parsed_date_time(text: Seq<char>, format: Seq<char>) -> Option<LogoutTime>;

/// `regex::Regex::new`: succeeds exactly on the patterns the crate accepts.
#[verifier::external_body]
fn regex_new(pattern: &str) -> (r: Result<regex::Regex, regex::Error>)
    ensures
        r is Ok <==> regex_accepts(pattern@),
{
    regex::Regex::new(pattern)
}

/// A compiled regular expression together with the pattern it was compiled
/// from; it is built only by [`CompiledPattern::new`].
pub struct CompiledPattern {
    source: String,
    regex: regex::Regex,
}

impl CompiledPattern {
    /// The pattern this was compiled from.
    pub closed spec fn source(&self) -> Seq<char> {
        self.source@
    }

    /// Compiles `pattern`; `None` where the `regex` crate refuses it.
    pub fn new(pattern: &str) -> (r: Option<CompiledPattern>)
        ensures
            r is Some <==> regex_accepts(pattern@),
            r matches Some(c) ==> c.source() == pattern@,
    {
        match regex_new(pattern) {
            Ok(regex) => Some(CompiledPattern { source: pattern.to_owned(), regex }),
            Err(_) => None,
        }
    }
}

/// The mathematical form of an optional captured text.
pub open spec fn group_view(g: Option<String>) -> Option<Seq<char>> {
    match g {
        Some(s) => Some(s@),
        None => None,
    }
}

/// The mathematical form of the capture groups of each match.
pub open spec fn captures_view(c: Seq<Vec<Option<String>>>) -> Seq<Seq<Option<Seq<char>>>> {
    c.map_values(|m: Vec<Option<String>>| m@.map_values(|g: Option<String>| group_view(g)))
}

/// `regex::Regex::captures_iter`, each match read as the texts of its
/// groups. The pattern's regex was compiled from `pattern.source()`, the only
/// way a `CompiledPattern` is made.
#[verifier::external_body]
fn captures_all(pattern: &CompiledPattern, text: &str) -> (r: Vec<Vec<Option<String>>>)
    ensures
        captures_view(r@) == regex_captures(pattern.source(), text@),
{
    pattern.regex.captures_iter(text).map(|c| c.iter().map(|g| g.map(|m| m.as_str().to_owned())).collect()).collect()
}

/// `chrono::NaiveDateTime::parse_from_str`, read as the fields of the result.
#[verifier::external_body]
fn parse_date_time(text: &str, format: &str) -> (r: Result<LogoutTime, chrono::ParseError>)
    ensures
        match r {
            Ok(t) => parsed_date_time(text@, format@) == Some(t) && logout_time_wf(t),
            Err(_) => parsed_date_time(text@, format@) is None,
        },
{
    chrono::NaiveDateTime::parse_from_str(text, format).map(|d| LogoutTime {
        year: d.year(),
        month: d.month(),
        day: d.day(),
        hour: d.hour(),
        minute: d.minute(),
        second: d.second(),
        nanosecond: d.nanosecond(),
        value: d,
    })
}

// ----------------------------------------------------------------------------
// Records and the latest of them

/// A character and the time it last logged out.
#[derive(Debug, PartialEq)]
pub struct CharacterInfo {
    /// `Name-Realm` of the character.
    pub name_realm: String,
    /// When it last logged out.
    pub last_logout: LogoutTime,
}

impl View for CharacterInfo {
    type V = (Seq<char>, LogoutTime);

    open spec fn view(&self) -> (Seq<char>, LogoutTime) {
        (self.name_realm@, self.last_logout)
    }
}

/// The regular expression of one record of the addon's saved variables.
pub open spec fn record_pattern() -> Seq<char> {
    "\\[\"(?P<name>.*?)\"\\] = \\{\\s+\\[\"lastLogout\"\\] = \"(?P<date>.*?)\","@
}

/// The chrono format of a logout time in the saved variables.
pub open spec fn logout_format() -> Seq<char> {
    "%Y-%m-%d %H:%M:%S"@
}

impl LogoutTime {
    /// Reads a logout time written as in the saved variables
    /// (`%Y-%m-%d %H:%M:%S`); `None` where the text is not one.
    pub fn parse(text: &str) -> (r: Option<LogoutTime>)
        ensures
            match r {
                Some(t) => parsed_date_time(text@, logout_format()) == Some(t),
                None => parsed_date_time(text@, logout_format()) is None,
            },
    {
        match parse_date_time(text, "%Y-%m-%d %H:%M:%S") {
            Ok(t) => Some(t),
            Err(_) => None,
        }
    }
}

/// The record a match gives: its name group and its date group, where the
/// date reads as a date and time.
pub open spec fn record_of(groups: Seq<Option<Seq<char>>>) -> Option<(Seq<char>, LogoutTime)> {
    if groups.len() >= 3 && groups[1] is Some && groups[2] is Some {
        match parsed_date_time(groups[2]->0, logout_format()) {
            Some(t) => Some((groups[1]->0, t)),
            None => None,
        }
    } else {
        None
    }
}

/// The records the matches give, in order.
pub open spec fn records_of(matches: Seq<Seq<Option<Seq<char>>>>) -> Seq<(Seq<char>, LogoutTime)>
    decreases matches.len(),
{
    if matches.len() == 0 {
        Seq::empty()
    } else {
        let rest = records_of(matches.drop_last());
        match record_of(matches.last()) {
            Some(r) => rest.push(r),
            None => rest,
        }
    }
}

/// The position of the latest record, the first one among equally late ones.
pub open spec fn latest_index(records: Seq<(Seq<char>, LogoutTime)>) -> Option<int>
    decreases records.len(),
{
    if records.len() == 0 {
        None
    } else {
        match latest_index(records.drop_last()) {
            None => Some(records.len() - 1),
            Some(i) => if later(records.last().1, records[i].1) {
                Some(records.len() - 1)
            } else {
                Some(i)
            },
        }
    }
}

/// The latest record, the first one among equally late ones.
pub open spec fn latest_of(records: Seq<(Seq<char>, LogoutTime)>) -> Option<(Seq<char>, LogoutTime)> {
    match latest_index(records) {
        Some(i) => Some(records[i]),
        None => None,
    }
}

proof fn lemma_latest_index_in_range(records: Seq<(Seq<char>, LogoutTime)>)
    ensures
        latest_index(records) matches Some(i) ==> 0 <= i < records.len(),
        latest_index(records) is None <==> records.len() == 0,
    decreases records.len(),
{
    if records.len() > 0 {
        lemma_latest_index_in_range(records.drop_last());
    }
}

/// The position of the latest record (`None` for no records).
pub fn latest_position(records: &Vec<CharacterInfo>) -> (r: Option<usize>)
    ensures
        match r {
            Some(i) => latest_index(records@.map_values(|c: CharacterInfo| c@)) == Some(i as int),
            None => latest_index(records@.map_values(|c: CharacterInfo| c@)) is None,
        },
{
    let ghost view = records@.map_values(|c: CharacterInfo| c@);
    let mut best: Option<usize> = None;
    let mut i: usize = 0;
    while i < records.len()
        invariant
            i <= records.len(),
            view == records@.map_values(|c: CharacterInfo| c@),
            match best {
                Some(b) => latest_index(view.take(i as int)) == Some(b as int),
                None => latest_index(view.take(i as int)) is None,
            },
        decreases records.len() - i,
    {
        proof {
            lemma_latest_index_in_range(view.take(i as int));
            assert(view.take(i + 1).drop_last() == view.take(i as int));
        }
        match best {
            None => {
                best = Some(i);
            },
            Some(b) => {
                if is_later(&records[i].last_logout, &records[b].last_logout) {
                    best = Some(i);
                }
            },
        }
        i = i + 1;
    }
    assert(view.take(records.len() as int) == view);
    best
}

/// The latest of the records, the first one among equally late ones.
pub fn latest_record(records: Vec<CharacterInfo>) -> (r: Option<CharacterInfo>)
    ensures
        match r {
            Some(c) => latest_of(records@.map_values(|c: CharacterInfo| c@)) == Some(c@),
            None => latest_of(records@.map_values(|c: CharacterInfo| c@)) is None,
        },
        r is None <==> records@.len() == 0,
        r matches Some(c) ==> first_of_latest(records@.map_values(|c: CharacterInfo| c@), c@),
{
    proof {
        lemma_latest_of_shape(records@.map_values(|c: CharacterInfo| c@));
    }
    let mut records = records;
    let ghost view = records@.map_values(|c: CharacterInfo| c@);
    match latest_position(&records) {
        None => None,
        Some(i) => {
            proof { lemma_latest_index_in_range(view); }
            let c = records.swap_remove(i);
            Some(c)
        },
    }
}

/// The records that the matches give: the name group and the date group of
/// each match whose date reads under [`logout_format`].
pub fn records_from_captures(matches: &Vec<Vec<Option<String>>>) -> (r: Vec<CharacterInfo>)
    ensures
        r@.map_values(|c: CharacterInfo| c@) == records_of(captures_view(matches@)),
{
    let ghost mv = captures_view(matches@);
    let mut r: Vec<CharacterInfo> = Vec::new();
    let mut i: usize = 0;
    while i < matches.len()
        invariant
            i <= matches.len(),
            mv == captures_view(matches@),
            r@.map_values(|c: CharacterInfo| c@) == records_of(mv.take(i as int)),
        decreases matches.len() - i,
    {
        let groups = &matches[i];
        proof {
            assert(mv.take(i + 1).drop_last() == mv.take(i as int));
            assert(mv.take(i + 1).last() == mv[i as int]);
            assert(mv[i as int] == groups@.map_values(|g: Option<String>| group_view(g)));
        }
        let ghost before = r@.map_values(|c: CharacterInfo| c@);
        if groups.len() >= 3 {
            match (&groups[1], &groups[2]) {
                (Some(name), Some(date)) => {
                    match parse_date_time(date.as_str(), "%Y-%m-%d %H:%M:%S") {
                        Ok(t) => {
                            r.push(CharacterInfo { name_realm: name.clone(), last_logout: t });
                            assert(r@.map_values(|c: CharacterInfo| c@) == before.push((name@, t)));
                        },
                        Err(_) => {},
                    }
                },
                _ => {},
            }
        }
        i = i + 1;
    }
    assert(mv.take(matches.len() as int) == mv);
    r
}

/// The character of a saved-variables text that logged out last (the first
/// such record among equals); `None` where no record has a readable date, or
/// where the record expression is refused (it is a fixed, valid pattern).
pub fn find_latest_in_lua(content: &str) -> (r: Option<CharacterInfo>)
    ensures
        regex_accepts(record_pattern()) ==> match r {
            Some(c) => latest_of(records_of(regex_captures(record_pattern(), content@))) == Some(c@),
            None => latest_of(records_of(regex_captures(record_pattern(), content@))) is None,
        },
        regex_accepts(record_pattern()) ==> ({
            let matches = regex_captures(record_pattern(), content@);
            &&& (r is None <==> forall|k: int| 0 <= k < matches.len() ==> #[trigger] record_of(matches[k]) is None)
            &&& r matches Some(c) ==> first_of_latest(records_of(matches), c@)
                && exists|k: int| 0 <= k < matches.len() && #[trigger] record_of(matches[k]) == Some(c@)
        }),
        !regex_accepts(record_pattern()) ==> r is None,
{
    match CompiledPattern::new("\\[\"(?P<name>.*?)\"\\] = \\{\\s+\\[\"lastLogout\"\\] = \"(?P<date>.*?)\",") {
        None => None,
        Some(pattern) => {
            let matches = captures_all(&pattern, content);
            let records = records_from_captures(&matches);
            proof {
                let ms = regex_captures(record_pattern(), content@);
                lemma_records_of_shape(ms);
                lemma_latest_of_shape(records_of(ms));
            }
            latest_record(records)
        },
    }
}


/// The latest record of one saved-variables text.
pub open spec fn lua_latest(content: Seq<char>) -> Option<(Seq<char>, LogoutTime)> {
    latest_of(records_of(regex_captures(record_pattern(), content)))
}

// ----------------------------------------------------------------------------
// Scanning the accounts

/// The accounts whose saved variables are scanned, in order.
pub open spec fn scanned_accounts() -> Seq<Seq<char>> {
    seq!["HKFIRST01"@, "HKFIRST02"@, "HKFIRST03"@, "HKFIRST04"@]
}

/// Where, under the game folder, the addon keeps an account's saved variables.
pub open spec fn account_log_path_of(account: Seq<char>) -> Seq<char> {
    "WTF\\Account\\"@ + account + "\\SavedVariables\\CharacterStatusLogger.lua"@
}

fn account_log_path(account: &str) -> (r: String)
    ensures
        r@ == account_log_path_of(account@),
{
    let head = concat_str("WTF\\Account\\", account);
    concat_str(head.as_str(), "\\SavedVariables\\CharacterStatusLogger.lua")
}

/// The saved-variables files to scan, relative to the game folder, one for
/// each scanned account in order.
pub fn account_log_paths() -> (r: Vec<String>)
    ensures
        r@.len() == scanned_accounts().len(),
        forall|i: int| 0 <= i < r@.len() ==> #[trigger] r@[i]@ == account_log_path_of(scanned_accounts()[i]),
{
    let mut r: Vec<String> = Vec::new();
    r.push(account_log_path("HKFIRST01"));
    r.push(account_log_path("HKFIRST02"));
    r.push(account_log_path("HKFIRST03"));
    r.push(account_log_path("HKFIRST04"));
    r
}

/// The latest record of each readable file that has one, in file order.
pub open spec fn scan_candidates(logs: Seq<Option<Seq<char>>>) -> Seq<(Seq<char>, LogoutTime)>
    decreases logs.len(),
{
    if logs.len() == 0 {
        Seq::empty()
    } else {
        let rest = scan_candidates(logs.drop_last());
        match logs.last() {
            Some(text) => match lua_latest(text) {
                Some(c) => rest.push(c),
                None => rest,
            },
            None => rest,
        }
    }
}

/// The mathematical form of the texts of the scanned files.
pub open spec fn logs_view(logs: Seq<Option<String>>) -> Seq<Option<Seq<char>>> {
    logs.map_values(|l: Option<String>| group_view(l))
}

/// The character that logged out last over the saved variables of all
/// accounts: `logs[i]` is the text of the i-th file of [`account_log_paths`],
/// `None` where it is missing or unreadable. Ties go to the earlier file.
pub fn run_admin_scan(logs: &Vec<Option<String>>) -> (r: Option<CharacterInfo>)
    ensures
        regex_accepts(record_pattern()) ==> match r {
            Some(c) => latest_of(scan_candidates(logs_view(logs@))) == Some(c@),
            None => latest_of(scan_candidates(logs_view(logs@))) is None,
        },
        regex_accepts(record_pattern()) ==> ({
            let lv = logs_view(logs@);
            &&& (r is None <==> forall|i: int| 0 <= i < lv.len() ==> (#[trigger] lv[i] is None || lua_latest(lv[i]->0) is None))
            &&& r matches Some(c) ==> first_of_latest(scan_candidates(lv), c@)
                && exists|i: int| 0 <= i < lv.len() && #[trigger] lv[i] is Some && lua_latest(lv[i]->0) == Some(c@)
        }),
{
    proof {
        lemma_scan_candidates_shape(logs_view(logs@));
        lemma_latest_of_shape(scan_candidates(logs_view(logs@)));
    }
    let ghost lv = logs_view(logs@);
    let mut found: Vec<CharacterInfo> = Vec::new();
    let mut i: usize = 0;
    while i < logs.len()
        invariant
            i <= logs.len(),
            lv == logs_view(logs@),
            regex_accepts(record_pattern()) ==> found@.map_values(|c: CharacterInfo| c@) == scan_candidates(lv.take(i as int)),
        decreases logs.len() - i,
    {
        proof {
            assert(lv.take(i + 1).drop_last() == lv.take(i as int));
            assert(lv.take(i + 1).last() == lv[i as int]);
        }
        let ghost before = found@.map_values(|c: CharacterInfo| c@);
        match &logs[i] {
            Some(text) => match find_latest_in_lua(text.as_str()) {
                Some(c) => {
                    found.push(c);
                    assert(found@.map_values(|c: CharacterInfo| c@) == before.push(c@));
                },
                None => {},
            },
            None => {},
        }
        i = i + 1;
    }
    assert(lv.take(logs.len() as int) == lv);
    latest_record(found)
}

// ----------------------------------------------------------------------------
// Laws of the choice

/// Whether two logout times have the same fields.
pub closed spec fn same_time(a: LogoutTime, b: LogoutTime) -> bool {
    a.year == b.year && a.month == b.month && a.day == b.day && a.hour == b.hour && a.minute == b.minute
        && a.second == b.second && a.nanosecond == b.nanosecond
}

proof fn lemma_later_total(a: LogoutTime, b: LogoutTime)
    ensures
        later(a, b) || later(b, a) || same_time(a, b),
        !(later(a, b) && later(b, a)),
{
}

proof fn lemma_later_same(a: LogoutTime, b: LogoutTime, c: LogoutTime)
    requires
        later(a, b),
        same_time(b, c),
    ensures
        later(a, c),
{
}

proof fn lemma_later_transitive(a: LogoutTime, b: LogoutTime, c: LogoutTime)
    requires
        later(a, b),
        later(b, c),
    ensures
        later(a, c),
{
}

/// The chosen record is one of the records, none is later than it, and it
/// is strictly later than every record before it: the first of the latest.
pub proof fn law_latest_is_first_of_latest(records: Seq<(Seq<char>, LogoutTime)>)
    requires
        records.len() > 0,
    ensures
        latest_index(records) matches Some(i) && 0 <= i < records.len()
            && (forall|j: int| 0 <= j < records.len() ==> !later(#[trigger] records[j].1, records[i].1))
            && (forall|j: int| 0 <= j < i ==> later(records[i].1, #[trigger] records[j].1)),
    decreases records.len(),
{
    lemma_latest_index_in_range(records);
    let n = records.len();
    let prev = records.drop_last();
    if n == 1 {
        assert(latest_index(records) == Some(0int));
    } else {
        law_latest_is_first_of_latest(prev);
        let k = latest_index(prev)->0;
        let i = latest_index(records)->0;
        let last = records.last();
        if later(last.1, records[k].1) {
            assert(i == n - 1);
            assert forall|j: int| 0 <= j < n implies !later(#[trigger] records[j].1, records[i].1) by {
                if j < n - 1 {
                    assert(records[j] == prev[j]);
                    lemma_later_total(records[j].1, records[k].1);
                    if later(records[j].1, last.1) {
                        lemma_later_transitive(records[j].1, last.1, records[k].1);
                    }
                }
            }
            assert forall|j: int| 0 <= j < i implies later(records[i].1, #[trigger] records[j].1) by {
                assert(records[j] == prev[j]);
                assert(!later(prev[j].1, prev[k].1));
                lemma_later_total(records[j].1, records[k].1);
                if later(records[k].1, records[j].1) {
                    lemma_later_transitive(last.1, records[k].1, records[j].1);
                } else {
                    lemma_later_same(last.1, records[k].1, records[j].1);
                }
            }
        } else {
            assert(i == k);
            assert forall|j: int| 0 <= j < n implies !later(#[trigger] records[j].1, records[i].1) by {
                if j < n - 1 {
                    assert(records[j] == prev[j]);
                }
            }
            assert forall|j: int| 0 <= j < i implies later(records[i].1, #[trigger] records[j].1) by {
                assert(records[j] == prev[j]);
            }
        }
    }
}


/// `c` is the first of the latest records: one of them, none later than
/// it, and strictly later than every record before it.
pub open spec fn first_of_latest(records: Seq<(Seq<char>, LogoutTime)>, c: (Seq<char>, LogoutTime)) -> bool {
    exists|i: int| 0 <= i < records.len() && records[i] == c
        && (forall|j: int| 0 <= j < records.len() ==> !later(#[trigger] records[j].1, c.1))
        && (forall|j: int| 0 <= j < i ==> later(c.1, #[trigger] records[j].1))
}

/// There is a latest record exactly when there is a record, and it is the
/// first of the latest.
pub proof fn lemma_latest_of_shape(records: Seq<(Seq<char>, LogoutTime)>)
    ensures
        latest_of(records) is None <==> records.len() == 0,
        latest_of(records) matches Some(c) ==> first_of_latest(records, c),
{
    lemma_latest_index_in_range(records);
    if records.len() > 0 {
        law_latest_is_first_of_latest(records);
        let i = latest_index(records)->0;
        assert(records[i] == latest_of(records)->0);
    }
}

/// A saved-variables text has records exactly when one of its matches
/// gives one, and each record is the one some match gives.
pub proof fn lemma_records_of_shape(matches: Seq<Seq<Option<Seq<char>>>>)
    ensures
        records_of(matches).len() == 0 <==> forall|k: int| 0 <= k < matches.len() ==> #[trigger] record_of(matches[k]) is None,
        forall|i: int| 0 <= i < records_of(matches).len() ==> exists|k: int| 0 <= k < matches.len()
            && #[trigger] record_of(matches[k]) == Some(#[trigger] records_of(matches)[i]),
    decreases matches.len(),
{
    if matches.len() > 0 {
        let prev = matches.drop_last();
        lemma_records_of_shape(prev);
        assert forall|k: int| 0 <= k < prev.len() implies #[trigger] prev[k] == matches[k] by {}
        let n = matches.len() - 1;
        assert(matches[n] == matches.last());
        if records_of(matches).len() == 0 {
            assert forall|k: int| 0 <= k < matches.len() implies #[trigger] record_of(matches[k]) is None by {
                if k < n {
                    assert(prev[k] == matches[k]);
                }
            }
        }
        let rs = records_of(matches);
        let ps = records_of(prev);
        assert forall|i: int| 0 <= i < rs.len() implies exists|k: int| 0 <= k < matches.len()
            && #[trigger] record_of(matches[k]) == Some(#[trigger] rs[i]) by {
            if i < ps.len() {
                assert(rs[i] == ps[i]);
                let k = choose|k: int| 0 <= k < prev.len() && #[trigger] record_of(prev[k]) == Some(ps[i]);
                assert(prev[k] == matches[k]);
            } else {
                assert(record_of(matches[n]) == Some(rs[i]));
            }
        }
    }
}

/// The scan has candidates exactly when some readable file has a record,
/// and each candidate is the latest record of some readable file.
pub proof fn lemma_scan_candidates_shape(logs: Seq<Option<Seq<char>>>)
    ensures
        scan_candidates(logs).len() == 0 <==> forall|i: int| 0 <= i < logs.len()
            ==> (#[trigger] logs[i] is None || lua_latest(logs[i]->0) is None),
        forall|j: int| 0 <= j < scan_candidates(logs).len() ==> exists|i: int| 0 <= i < logs.len()
            && #[trigger] logs[i] is Some && lua_latest(logs[i]->0) == Some(#[trigger] scan_candidates(logs)[j]),
    decreases logs.len(),
{
    if logs.len() > 0 {
        let prev = logs.drop_last();
        lemma_scan_candidates_shape(prev);
        let n = logs.len() - 1;
        assert(logs[n] == logs.last());
        if scan_candidates(logs).len() == 0 {
            assert forall|i: int| 0 <= i < logs.len() implies (#[trigger] logs[i] is None || lua_latest(logs[i]->0) is None) by {
                if i < n {
                    assert(prev[i] == logs[i]);
                }
            }
        } else {
            if forall|i: int| 0 <= i < logs.len() ==> (#[trigger] logs[i] is None || lua_latest(logs[i]->0) is None) {
                assert forall|i: int| 0 <= i < prev.len() implies (#[trigger] prev[i] is None || lua_latest(prev[i]->0) is None) by {
                    assert(prev[i] == logs[i]);
                }
                assert(logs[n] is None || lua_latest(logs[n]->0) is None);
            }
        }
        let cs = scan_candidates(logs);
        let ps = scan_candidates(prev);
        assert forall|j: int| 0 <= j < cs.len() implies exists|i: int| 0 <= i < logs.len()
            && #[trigger] logs[i] is Some && lua_latest(logs[i]->0) == Some(#[trigger] cs[j]) by {
            if j < ps.len() {
                assert(cs[j] == ps[j]);
                let i = choose|i: int| 0 <= i < prev.len() && #[trigger] prev[i] is Some && lua_latest(prev[i]->0) == Some(ps[j]);
                assert(prev[i] == logs[i]);
            } else {
                assert(logs[n] is Some);
            }
        }
    }
}


/// The order of logout times is the chronological one: the first field,
/// in the order year, month, day, hour, minute, second, nanosecond, in
/// which two times differ decides which is later, whatever the fields
/// after it; equal times are not later than each other.
pub proof fn law_later_is_chronological(a: LogoutTime, b: LogoutTime)
    ensures
        fields_of(a).0 > fields_of(b).0 ==> later(a, b),
        fields_of(a).0 < fields_of(b).0 ==> !later(a, b),
        fields_of(a).0 == fields_of(b).0 && fields_of(a).1 > fields_of(b).1 ==> later(a, b),
        fields_of(a).0 == fields_of(b).0 && fields_of(a).1 < fields_of(b).1 ==> !later(a, b),
        fields_of(a).0 == fields_of(b).0 && fields_of(a).1 == fields_of(b).1 && fields_of(a).2 > fields_of(b).2 ==> later(a, b),
        fields_of(a).0 == fields_of(b).0 && fields_of(a).1 == fields_of(b).1 && fields_of(a).2 < fields_of(b).2 ==> !later(a, b),
        fields_of(a).0 == fields_of(b).0 && fields_of(a).1 == fields_of(b).1 && fields_of(a).2 == fields_of(b).2 && fields_of(a).3 > fields_of(b).3 ==> later(a, b),
        fields_of(a).0 == fields_of(b).0 && fields_of(a).1 == fields_of(b).1 && fields_of(a).2 == fields_of(b).2 && fields_of(a).3 < fields_of(b).3 ==> !later(a, b),
        fields_of(a).0 == fields_of(b).0 && fields_of(a).1 == fields_of(b).1 && fields_of(a).2 == fields_of(b).2 && fields_of(a).3 == fields_of(b).3 && fields_of(a).4 > fields_of(b).4 ==> later(a, b),
        fields_of(a).0 == fields_of(b).0 && fields_of(a).1 == fields_of(b).1 && fields_of(a).2 == fields_of(b).2 && fields_of(a).3 == fields_of(b).3 && fields_of(a).4 < fields_of(b).4 ==> !later(a, b),
        fields_of(a).0 == fields_of(b).0 && fields_of(a).1 == fields_of(b).1 && fields_of(a).2 == fields_of(b).2 && fields_of(a).3 == fields_of(b).3 && fields_of(a).4 == fields_of(b).4 && fields_of(a).5 > fields_of(b).5 ==> later(a, b),
        fields_of(a).0 == fields_of(b).0 && fields_of(a).1 == fields_of(b).1 && fields_of(a).2 == fields_of(b).2 && fields_of(a).3 == fields_of(b).3 && fields_of(a).4 == fields_of(b).4 && fields_of(a).5 < fields_of(b).5 ==> !later(a, b),
        fields_of(a).0 == fields_of(b).0 && fields_of(a).1 == fields_of(b).1 && fields_of(a).2 == fields_of(b).2 && fields_of(a).3 == fields_of(b).3 && fields_of(a).4 == fields_of(b).4 && fields_of(a).5 == fields_of(b).5 && fields_of(a).6 > fields_of(b).6 ==> later(a, b),
        fields_of(a).0 == fields_of(b).0 && fields_of(a).1 == fields_of(b).1 && fields_of(a).2 == fields_of(b).2 && fields_of(a).3 == fields_of(b).3 && fields_of(a).4 == fields_of(b).4 && fields_of(a).5 == fields_of(b).5 && fields_of(a).6 < fields_of(b).6 ==> !later(a, b),
        fields_of(a).0 == fields_of(b).0 && fields_of(a).1 == fields_of(b).1 && fields_of(a).2 == fields_of(b).2 && fields_of(a).3 == fields_of(b).3 && fields_of(a).4 == fields_of(b).4 && fields_of(a).5 == fields_of(b).5 && fields_of(a).6 == fields_of(b).6 ==> !later(a, b),
{
}

} // verus!
