//! The GitHub side of synchronisation: the object id GitHub gives a file,
//! the headers of every request, the addresses asked, the body of an upload
//! and the reading of GitHub's answers.

use vstd::prelude::*;
use vstd::string::*;
use crate::json::{json_at, json_get, json_str, or_null, str_of, JsonValue};
use crate::text::{is_hex_lower_digit, lemma_hex_lower_shape, lemma_remove_absent_char, remove_char, without_char, chars_of, concat_str, decimal, decimal_string, digit_char, hex_lower, to_hex_lower};
use sha1::Digest;
use base64::Engine;

verus! {

// ----------------------------------------------------------------------------
// Outside types and calls

#[verifier::external_type_specification]
#[verifier::external_body]
pub struct ExDecodeError(base64::DecodeError);

#[verifier::external_type_specification]
#[verifier::external_body]
pub struct ExFromUtf8Error(std::string::FromUtf8Error);

#[verifier::external_type_specification]
#[verifier::external_body]
pub struct ExHeaderValue(reqwest::header::HeaderValue);

#[verifier::external_type_specification]
#[verifier::external_body]
pub struct ExInvalidHeaderValue(reqwest::header::InvalidHeaderValue);

/// The SHA-1 digest of a byte sequence.
pub uninterp spec fn sha1_of(data: Seq<u8>) -> Seq<u8>;

/// The standard (padded, `+/` alphabet) Base64 text of a byte sequence.
pub uninterp spec fn base64_text(data: Seq<u8>) -> Seq<char>;

/// The bytes that standard Base64 decoding gives for a text, `None` where the
/// text is not valid standard Base64.
pub uninterp spec fn base64_bytes(text: Seq<u8>) -> Option<Seq<u8>>;

/// `sha1::Sha1::digest`: the 20-byte SHA-1 digest of `data`. The contract
/// names the digest and states its length; nothing more of SHA-1 is stated.
#[verifier::external_body]
fn sha1_digest(data: &[u8]) -> (r: Vec<u8>)
    ensures
        r@ == sha1_of(data@),
        r@.len() == 20,
{
    sha1::Sha1::digest(data).to_vec()
}

/// A character of the standard Base64 alphabet (RFC 4648), or the padding `=`.
pub open spec fn standard_base64_char(c: char) -> bool {
    ('A' <= c && c <= 'Z') || ('a' <= c && c <= 'z') || ('0' <= c && c <= '9') || c == '+' || c == '/'
        || c == '='
}

/// `base64::engine::general_purpose::STANDARD.encode`: the padded standard
/// (RFC 4648) Base64 text of `data`, named, not spelled out; it is made of
/// the standard alphabet and `=`, and the same engine decodes it back to
/// `data`. The crate panics only where the length of the text would overflow
/// `usize`, which `requires` excludes.
#[verifier::external_body]
fn base64_encode(data: &[u8]) -> (r: String)
    requires
        data@.len() / 3 * 4 + 4 <= usize::MAX,
    ensures
        r@ == base64_text(data@),
        forall|i: int| 0 <= i < r@.len() ==> standard_base64_char(#[trigger] r@[i]),
        base64_bytes(vstd::utf8::encode_utf8(r@)) == Some(data@),
{
    base64::engine::general_purpose::STANDARD.encode(data)
}

/// `base64::engine::general_purpose::STANDARD.decode`: the decoded bytes, or
/// the crate's error where `text` is not valid standard Base64.
#[verifier::external_body]
fn base64_decode(text: &[u8]) -> (r: Result<Vec<u8>, base64::DecodeError>)
    ensures
        match r {
            Ok(v) => base64_bytes(text@) == Some(v@),
            Err(_) => base64_bytes(text@) is None,
        },
{
    base64::engine::general_purpose::STANDARD.decode(text)
}

/// `String::from_utf8`: succeeds exactly on valid UTF-8, giving its characters.
#[verifier::external_body]
fn string_from_utf8(bytes: Vec<u8>) -> (r: Result<String, std::string::FromUtf8Error>)
    ensures
        match r {
            Ok(s) => vstd::utf8::valid_utf8(bytes@) && s@ == vstd::utf8::decode_utf8(bytes@),
            Err(_) => !vstd::utf8::valid_utf8(bytes@),
        },
{
    String::from_utf8(bytes)
}

/// A byte that an HTTP header value may hold: visible ASCII, a tab, or any
/// byte from 0x80 up.
pub open spec fn header_byte_ok(b: u8) -> bool {
    (b >= 32 && b != 127) || b == 9
}

/// Whether every byte of `bytes` may stand in a header value.
pub open spec fn header_text_ok(bytes: Seq<u8>) -> bool {
    forall|i: int| 0 <= i < bytes.len() ==> header_byte_ok(#[trigger] bytes[i])
}

/// `reqwest::header::HeaderValue::from_str`: succeeds exactly when every
/// byte of `s` is a permitted header byte (the crate's `is_valid`).
#[verifier::external_body]
fn header_value(s: &str) -> (r: Result<reqwest::header::HeaderValue, reqwest::header::InvalidHeaderValue>)
    ensures
        r is Ok <==> header_text_ok(s.spec_bytes()),
{
    reqwest::header::HeaderValue::from_str(s)
}

// ----------------------------------------------------------------------------
// Object ids

/// The ASCII bytes of a text made of ASCII characters.
pub open spec fn ascii_bytes(s: Seq<char>) -> Seq<u8> {
    s.map_values(|c: char| c as u8)
}

/// The bytes GitHub hashes for a file: the ASCII text `blob `, the length
/// of the content in decimal, a NUL byte, then the content.
pub open spec fn git_blob(content: Seq<u8>) -> Seq<u8> {
    seq![98u8, 108u8, 111u8, 98u8, 32u8] + ascii_bytes(decimal(content.len())) + seq![0u8] + content
}

/// The object id GitHub gives a file with this text: the lower-case hex of
/// the SHA-1 of its blob.
pub open spec fn github_sha(content: Seq<char>) -> Seq<char> {
    hex_lower(sha1_of(git_blob(vstd::utf8::encode_utf8(content))))
}

/// The number that a text of ASCII decimal digits reads as, most
/// significant digit first.
pub open spec fn numeral_value(ds: Seq<u8>) -> int
    decreases ds.len(),
{
    if ds.len() == 0 {
        0
    } else {
        numeral_value(ds.drop_last()) * 10 + (ds.last() - 48)
    }
}

/// A decimal numeral as `to_string` writes a number: one or more ASCII
/// digits, with no leading zero unless it is the only digit.
pub open spec fn is_numeral(ds: Seq<u8>) -> bool {
    &&& ds.len() >= 1
    &&& forall|i: int| 0 <= i < ds.len() ==> 48 <= #[trigger] ds[i] <= 57
    &&& (ds.len() == 1 || ds[0] != 48)
}

/// Whether `b` is git's blob object for `content`: the ASCII text `blob `,
/// the content's length in bytes as a decimal numeral, a NUL byte, then the
/// content itself.
pub open spec fn is_git_blob_of(b: Seq<u8>, content: Seq<u8>) -> bool {
    let l = b.len() - 6 - content.len();
    &&& l >= 1
    &&& b.subrange(0, 5) == seq![98u8, 108u8, 111u8, 98u8, 32u8]
    &&& is_numeral(b.subrange(5, 5 + l))
    &&& numeral_value(b.subrange(5, 5 + l)) == content.len()
    &&& b[5 + l] == 0u8
    &&& b.subrange(6 + l, b.len() as int) == content
}

/// The decimal text of `n`, as bytes, is a numeral that reads as `n`.
proof fn lemma_decimal_numeral(n: nat)
    ensures
        is_numeral(ascii_bytes(decimal(n))),
        numeral_value(ascii_bytes(decimal(n))) == n,
        (ascii_bytes(decimal(n))[0] == 48) == (n == 0),
    decreases n,
{
    let ds = ascii_bytes(decimal(n));
    if n < 10 {
        assert(ds =~= seq![(48 + n) as u8]);
        assert(ds.drop_last() =~= Seq::<u8>::empty());
        assert(ds.last() == 48 + n);
        assert(numeral_value(ds) == numeral_value(ds.drop_last()) * 10 + (ds.last() - 48));
    } else {
        let q = (n / 10) as nat;
        let d = (n % 10) as int;
        lemma_decimal_numeral(q);
        let prev = ascii_bytes(decimal(q));
        assert(decimal(n) == decimal(q).push(digit_char(d)));
        assert(ds =~= prev.push((48 + d) as u8));
        assert(ds.drop_last() =~= prev);
        assert(ds.last() == 48 + d);
        assert(ds[0] == prev[0]);
        assert(numeral_value(ds) == numeral_value(prev) * 10 + d);
        assert(q * 10 + d == n);
    }
}

/// Ten to the power `n`.
spec fn ten_to(n: nat) -> int
    decreases n,
{
    if n == 0 {
        1
    } else {
        10 * ten_to((n - 1) as nat)
    }
}

proof fn lemma_ten_to_grows(a: nat, b: nat)
    requires
        a <= b,
    ensures
        1 <= ten_to(a) <= ten_to(b),
    decreases b,
{
    if b > a {
        lemma_ten_to_grows(a, (b - 1) as nat);
    } else if a > 0 {
        lemma_ten_to_grows((a - 1) as nat, (a - 1) as nat);
    }
}

/// A text of `L` digits reads as less than `10^L`, and as at least
/// `10^(L-1)` when it has more than one digit and no leading zero.
proof fn lemma_numeral_bounds(ds: Seq<u8>)
    requires
        ds.len() >= 1,
        forall|i: int| 0 <= i < ds.len() ==> 48 <= #[trigger] ds[i] <= 57,
    ensures
        0 <= numeral_value(ds) < ten_to(ds.len()),
        ds.len() == 1 ==> numeral_value(ds) == ds[0] - 48,
        ds.len() > 1 && ds[0] != 48 ==> numeral_value(ds) >= ten_to((ds.len() - 1) as nat),
    decreases ds.len(),
{
    let prev = ds.drop_last();
    let d = ds.last() - 48;
    assert(ds[ds.len() - 1] == ds.last());
    assert(numeral_value(ds) == numeral_value(prev) * 10 + d);
    if ds.len() == 1 {
        assert(prev =~= Seq::<u8>::empty());
        assert(numeral_value(prev) == 0);
        assert(ten_to(1) == 10 * ten_to(0));
    } else {
        assert forall|i: int| 0 <= i < prev.len() implies 48 <= #[trigger] prev[i] <= 57 by {
            assert(prev[i] == ds[i]);
        }
        lemma_numeral_bounds(prev);
        assert(prev[0] == ds[0]);
        assert(ten_to(ds.len()) == 10 * ten_to(prev.len()));
        if prev.len() > 1 {
            assert(ten_to(prev.len()) == 10 * ten_to((prev.len() - 1) as nat));
        } else {
            assert(ten_to(1) == 10 * ten_to(0));
        }
    }
}

/// Two texts of digits of one length that read as the same number are the
/// same text.
proof fn lemma_digits_same_value(x: Seq<u8>, y: Seq<u8>)
    requires
        x.len() == y.len(),
        forall|i: int| 0 <= i < x.len() ==> 48 <= #[trigger] x[i] <= 57,
        forall|i: int| 0 <= i < y.len() ==> 48 <= #[trigger] y[i] <= 57,
        numeral_value(x) == numeral_value(y),
    ensures
        x == y,
    decreases x.len(),
{
    if x.len() == 0 {
        assert(x =~= y);
    } else {
        let (px, py) = (x.drop_last(), y.drop_last());
        assert(x[x.len() - 1] == x.last());
        assert(y[y.len() - 1] == y.last());
        assert forall|i: int| 0 <= i < px.len() implies 48 <= #[trigger] px[i] <= 57 by {
            assert(px[i] == x[i]);
        }
        assert forall|i: int| 0 <= i < py.len() implies 48 <= #[trigger] py[i] <= 57 by {
            assert(py[i] == y[i]);
        }
        if px.len() > 0 {
            lemma_numeral_bounds(px);
            lemma_numeral_bounds(py);
        } else {
            assert(px =~= Seq::<u8>::empty());
            assert(py =~= Seq::<u8>::empty());
        }
        assert(numeral_value(x) == numeral_value(px) * 10 + (x.last() - 48));
        assert(numeral_value(y) == numeral_value(py) * 10 + (y.last() - 48));
        assert(numeral_value(px) == numeral_value(py));
        lemma_digits_same_value(px, py);
        assert(x =~= px.push(x.last()));
        assert(y =~= py.push(y.last()));
    }
}

/// A number has one decimal numeral only.
proof fn lemma_numeral_unique(x: Seq<u8>, y: Seq<u8>)
    requires
        is_numeral(x),
        is_numeral(y),
        numeral_value(x) == numeral_value(y),
    ensures
        x == y,
{
    lemma_numeral_bounds(x);
    lemma_numeral_bounds(y);
    if x.len() < y.len() {
        lemma_ten_to_grows(x.len(), (y.len() - 1) as nat);
    } else if y.len() < x.len() {
        lemma_ten_to_grows(y.len(), (x.len() - 1) as nat);
    }
    lemma_digits_same_value(x, y);
}

/// A content has one git blob object only: the blob is fixed by the content.
pub proof fn law_git_blob_is_unique(b1: Seq<u8>, b2: Seq<u8>, content: Seq<u8>)
    requires
        is_git_blob_of(b1, content),
        is_git_blob_of(b2, content),
    ensures
        b1 == b2,
{
    let l1 = b1.len() - 6 - content.len();
    let l2 = b2.len() - 6 - content.len();
    lemma_numeral_unique(b1.subrange(5, 5 + l1), b2.subrange(5, 5 + l2));
    assert(l1 == l2);
    let l = l1;
    assert forall|k: int| 0 <= k < b1.len() implies b1[k] == b2[k] by {
        if k < 5 {
            assert(b1.subrange(0, 5)[k] == b2.subrange(0, 5)[k]);
        } else if k < 5 + l {
            assert(b1.subrange(5, 5 + l)[k - 5] == b2.subrange(5, 5 + l)[k - 5]);
        } else if k > 5 + l {
            assert(b1.subrange(6 + l, b1.len() as int)[k - 6 - l] == b2.subrange(6 + l, b2.len() as int)[k - 6 - l]);
        }
    }
    assert(b1 =~= b2);
}

/// The blob that the object id of a file is computed from is git's blob
/// object for the file's bytes, with the length written in decimal, most
/// significant digit first, for contents of any length.
pub proof fn law_git_blob_layout(content: Seq<u8>)
    ensures
        is_git_blob_of(git_blob(content), content),
{
    let d = ascii_bytes(decimal(content.len()));
    lemma_decimal_numeral(content.len());
    let h = seq![98u8, 108u8, 111u8, 98u8, 32u8];
    let b = git_blob(content);
    let l = d.len() as int;
    assert(b == h + d + seq![0u8] + content);
    assert(b.len() - 6 - content.len() == l);
    assert(b.subrange(0, 5) =~= h);
    assert(b.subrange(5, 5 + l) =~= d);
    assert(b[5 + l] == 0u8);
    assert(b.subrange(6 + l, b.len() as int) =~= content);
}

fn push_all(out: &mut Vec<u8>, bytes: &[u8])
    ensures
        final(out)@ == old(out)@ + bytes@,
{
    let mut i: usize = 0;
    while i < bytes.len()
        invariant
            i <= bytes.len(),
            out@ == old(out)@ + bytes@.take(i as int),
        decreases bytes.len() - i,
    {
        out.push(bytes[i]);
        assert(bytes@.take(i + 1) == bytes@.take(i as int).push(bytes@[i as int]));
        i = i + 1;
    }
    assert(bytes@.take(bytes.len() as int) == bytes@);
}

fn blob_of(content: &[u8]) -> (r: Vec<u8>)
    ensures
        r@ == git_blob(content@),
{
    let mut r: Vec<u8> = Vec::new();
    r.push(98u8);
    r.push(108u8);
    r.push(111u8);
    r.push(98u8);
    r.push(32u8);
    let len = decimal_string(content.len() as u64);
    let digits = chars_of(len.as_str());
    let ghost head = r@;
    let mut i: usize = 0;
    while i < digits.len()
        invariant
            i <= digits.len(),
            r@ == head + ascii_bytes(digits@.take(i as int)),
        decreases digits.len() - i,
    {
        r.push(digits[i] as u8);
        assert(ascii_bytes(digits@.take(i + 1)) == ascii_bytes(digits@.take(i as int)).push(digits@[i as int] as u8));
        i = i + 1;
    }
    assert(digits@.take(digits.len() as int) == digits@);
    r.push(0u8);
    push_all(&mut r, content);
    assert(r@ == git_blob(content@)) by {
        assert(head == seq![98u8, 108u8, 111u8, 98u8, 32u8]);
    }
    r
}

/// The object id GitHub reports for a file whose text is `content`
/// (the `sha` of the contents API), in lower-case hex.
pub fn calculate_github_sha(content: &str) -> (r: String)
    ensures
        r@ == github_sha(content@),
        r@.len() == 40,
        forall|i: int| 0 <= i < r@.len() ==> is_hex_lower_digit(#[trigger] r@[i]),
        exists|b: Seq<u8>| is_git_blob_of(b, vstd::utf8::encode_utf8(content@)) && r@ == hex_lower(#[trigger] sha1_of(b)),
{
    let blob = blob_of(content.as_bytes());
    let digest = sha1_digest(blob.as_slice());
    proof {
        lemma_hex_lower_shape(digest@);
        law_git_blob_layout(vstd::utf8::encode_utf8(content@));
    }
    to_hex_lower(digest.as_slice())
}

// ----------------------------------------------------------------------------
// Request headers

/// The headers sent with every request to GitHub.
#[derive(Debug, PartialEq)]
pub struct GhHeaders {
    /// The `User-Agent` header.
    pub user_agent: String,
    /// The `Authorization` header, where one is sent.
    pub authorization: Option<String>,
}

/// The `User-Agent` every request carries.
pub open spec fn user_agent_text() -> Seq<char> {
    "ItemStorageBrowser-Manager"@
}

/// The `Authorization` value for a token: `token ` followed by the token.
pub open spec fn authorization_text(token: Seq<char>) -> Seq<char> {
    "token "@ + token
}

/// The headers of a request made with `token`: always the user agent; the
/// authorization only for a non-empty token whose value HTTP accepts.
pub fn get_gh_headers(token: &str) -> (h: GhHeaders)
    ensures
        h.user_agent@ == user_agent_text(),
        h.authorization is Some <==> token@.len() > 0 && header_text_ok(
            vstd::utf8::encode_utf8(authorization_text(token@)),
        ),
        h.authorization matches Some(a) ==> a@ == authorization_text(token@),
{
    let user_agent: String = "ItemStorageBrowser-Manager".to_owned();
    let mut authorization: Option<String> = None;
    if !token.is_empty() {
        let value = concat_str("token ", token);
        if header_value(value.as_str()).is_ok() {
            authorization = Some(value);
        }
    }
    GhHeaders { user_agent, authorization }
}


// ----------------------------------------------------------------------------
// Addresses

/// The API address of the repository that holds the item database.
pub open spec fn data_repo_api() -> Seq<char> {
    "https://api.github.com/repos/Phoenix-Guilds/ItemStorageBrowser"@
}

/// The path of the item database in its repository.
pub open spec fn db_repo_path() -> Seq<char> {
    "ItemStorageDB.lua"@
}

/// The path of the item database in its repository (`ItemStorageDB.lua`).
pub fn db_file_in_repo() -> (r: String)
    ensures
        r@ == db_repo_path(),
{
    "ItemStorageDB.lua".to_owned()
}

/// The contents-API address of `path` in the data repository.
pub open spec fn contents_url_of(path: Seq<char>) -> Seq<char> {
    data_repo_api() + "/contents/"@ + path
}

/// The contents-API address of `path` in the data repository.
pub fn contents_url(path: &str) -> (r: String)
    ensures
        r@ == contents_url_of(path@),
{
    let base = concat_str("https://api.github.com/repos/Phoenix-Guilds/ItemStorageBrowser", "/contents/");
    concat_str(base.as_str(), path)
}

/// The address that reads `path` from the `data` branch.
pub open spec fn data_branch_url_of(path: Seq<char>) -> Seq<char> {
    contents_url_of(path) + "?ref=data"@
}

/// The address that reads `path` from the `data` branch.
pub fn data_branch_url(path: &str) -> (r: String)
    ensures
        r@ == data_branch_url_of(path@),
{
    let url = contents_url(path);
    concat_str(url.as_str(), "?ref=data")
}

/// The address of the latest commit of the `data` branch that touched `path`.
pub open spec fn last_commit_url_of(path: Seq<char>) -> Seq<char> {
    data_repo_api() + "/commits?path="@ + path + "&sha=data&per_page=1"@
}

/// The address of the latest commit of the `data` branch that touched `path`.
pub fn last_commit_url(path: &str) -> (r: String)
    ensures
        r@ == last_commit_url_of(path@),
{
    let base = concat_str("https://api.github.com/repos/Phoenix-Guilds/ItemStorageBrowser", "/commits?path=");
    let with_path = concat_str(base.as_str(), path);
    concat_str(with_path.as_str(), "&sha=data&per_page=1")
}

/// The address of the latest release of the desktop application.
pub open spec fn latest_release_url_text() -> Seq<char> {
    "https://api.github.com/repos/Phoenix-Guilds/ItemStorageDesktop/releases/latest"@
}

/// The address of the latest release of the desktop application.
pub fn latest_release_url() -> (r: String)
    ensures
        r@ == latest_release_url_text(),
{
    "https://api.github.com/repos/Phoenix-Guilds/ItemStorageDesktop/releases/latest".to_owned()
}

// ----------------------------------------------------------------------------
// Reading GitHub's answers

/// The `sha` a contents answer reports, empty where it reports none.
pub open spec fn remote_sha_of(answer: JsonValue) -> Seq<char> {
    match json_str(json_get(answer, "sha"@)) {
        Some(s) => s,
        None => Seq::empty(),
    }
}

/// The `sha` a contents answer reports (`json["sha"].as_str().unwrap_or("")`).
pub fn remote_sha(answer: &JsonValue) -> (r: String)
    ensures
        r@ == remote_sha_of(*answer),
{
    match str_of(answer.get("sha")) {
        Some(s) => s.to_owned(),
        None => String::new(),
    }
}

/// The release tag and page of a latest-release answer: the tag defaults to
/// `v0.0.0` and the page to the empty text.
pub fn release_info(answer: &JsonValue) -> (r: (String, String))
    ensures
        r.0@ == match json_str(json_get(*answer, "tag_name"@)) {
            Some(s) => s,
            None => "v0.0.0"@,
        },
        r.1@ == match json_str(json_get(*answer, "html_url"@)) {
            Some(s) => s,
            None => Seq::empty(),
        },
{
    let tag: String = match str_of(answer.get("tag_name")) {
        Some(s) => s.to_owned(),
        None => "v0.0.0".to_owned(),
    };
    let url: String = match str_of(answer.get("html_url")) {
        Some(s) => s.to_owned(),
        None => String::new(),
    };
    (tag, url)
}

#[verifier::external_type_specification]
#[verifier::external_body]
pub struct ExParseError(chrono::ParseError);

/// The Unix time, in seconds, of an RFC 3339 date-time, `None` where the
/// text is not one.
pub uninterp spec fn rfc3339_seconds(text: Seq<char>) -> Option<int>;

/// `chrono::DateTime::parse_from_rfc3339`, read as its Unix timestamp.
#[verifier::external_body]
fn rfc3339_timestamp(s: &str) -> (r: Result<i64, chrono::ParseError>)
    ensures
        match r {
            Ok(t) => rfc3339_seconds(s@) == Some(t as int),
            Err(_) => rfc3339_seconds(s@) is None,
        },
{
    chrono::DateTime::parse_from_rfc3339(s).map(|d| d.timestamp())
}

/// Why the time of the last remote change could not be read.
#[derive(Debug)]
pub enum RemoteTimeError {
    /// The answer has no `[0].commit.committer.date` string.
    MissingDate,
    /// The date is not an RFC 3339 date-time.
    BadDate(chrono::ParseError),
}

/// The committer date of the first commit of a commits answer.
pub open spec fn commit_date_of(commits: JsonValue) -> Option<Seq<char>> {
    json_str(json_get(json_get(json_get(json_at(commits, 0), "commit"@), "committer"@), "date"@))
}

/// The time of the last change of a file on GitHub, as Unix seconds read as
/// `u64` (`timestamp() as u64`), from the commits answer for that file.
pub fn remote_file_time(commits: &JsonValue) -> (r: Result<u64, RemoteTimeError>)
    ensures
        match commit_date_of(*commits) {
            None => r is Err && r->Err_0 is MissingDate,
            Some(d) => match rfc3339_seconds(d) {
                None => r is Err && r->Err_0 is BadDate,
                Some(t) => r == Ok::<u64, RemoteTimeError>(t as u64),
            },
        },
{
    let first = commits.at(0);
    let commit = match first {
        Some(v) => v.get("commit"),
        None => None,
    };
    let committer = match commit {
        Some(v) => v.get("committer"),
        None => None,
    };
    let date = match committer {
        Some(v) => v.get("date"),
        None => None,
    };
    match str_of(date) {
        None => Err(RemoteTimeError::MissingDate),
        Some(d) => match rfc3339_timestamp(d) {
            Ok(t) => Ok(t as u64),
            Err(e) => Err(RemoteTimeError::BadDate(e)),
        },
    }
}

/// Why a downloaded file could not be read.
#[derive(Debug)]
pub enum DownloadError {
    /// The answer has no `content` string.
    NoContent,
    /// The content is not valid Base64.
    NotBase64(base64::DecodeError),
    /// The decoded content is not UTF-8 text.
    NotUtf8(std::string::FromUtf8Error),
}

/// The bytes Base64 decoding is given for the `content` text of a
/// contents answer: its UTF-8 bytes once line breaks are removed.
pub open spec fn download_payload(text: Seq<char>) -> Seq<u8> {
    vstd::utf8::encode_utf8(remove_char(text, '\n'))
}

/// The text a download reads from the `content` text of an answer: line
/// breaks removed, Base64-decoded, read as UTF-8; `None` where that fails.
pub open spec fn download_text(content: Seq<char>) -> Option<Seq<char>> {
    match base64_bytes(download_payload(content)) {
        Some(bytes) => if vstd::utf8::valid_utf8(bytes) {
            Some(vstd::utf8::decode_utf8(bytes))
        } else {
            None
        },
        None => None,
    }
}

/// The text of a file from a contents answer: `content` with line breaks
/// removed, Base64-decoded, read as UTF-8.
pub fn decode_download(answer: &JsonValue) -> (r: Result<String, DownloadError>)
    ensures
        match json_str(json_get(*answer, "content"@)) {
            None => r is Err && r->Err_0 is NoContent,
            Some(text) => match base64_bytes(download_payload(text)) {
                None => r is Err && r->Err_0 is NotBase64,
                Some(bytes) => if vstd::utf8::valid_utf8(bytes) {
                    r is Ok && r->Ok_0@ == vstd::utf8::decode_utf8(bytes)
                } else {
                    r is Err && r->Err_0 is NotUtf8
                },
            },
        },
        json_str(json_get(*answer, "content"@)) matches Some(text) ==> match r {
            Ok(s) => download_text(text) == Some(s@),
            Err(_) => download_text(text) is None,
        },
{
    match str_of(answer.get("content")) {
        None => Err(DownloadError::NoContent),
        Some(text) => {
            let joined = without_char(text, '\n');
            match base64_decode(joined.as_str().as_bytes()) {
                Err(e) => Err(DownloadError::NotBase64(e)),
                Ok(bytes) => match string_from_utf8(bytes) {
                    Ok(s) => Ok(s),
                    Err(e) => Err(DownloadError::NotUtf8(e)),
                },
            }
        },
    }
}

/// Whether Base64 text for `content` fits in memory (beyond it the encoder panics).
pub open spec fn encodable(content: Seq<char>) -> bool {
    vstd::utf8::encode_utf8(content).len() / 3 * 4 + 4 <= usize::MAX
}

/// A member named `key` whose value is the string `value`.
pub open spec fn is_str_member(m: (String, JsonValue), key: Seq<char>, value: Seq<char>) -> bool {
    m.0@ == key && json_str(m.1) == Some(value)
}

fn str_member(key: &str, value: String) -> (r: (String, JsonValue))
    ensures
        is_str_member(r, key@, value@),
{
    (key.to_owned(), JsonValue::Str(value))
}

/// The body of an upload: the commit message, the Base64 of the file's
/// UTF-8 bytes, the branch `data`, and the `sha` being replaced where one is
/// known, in that order.
pub fn upload_body(message: &str, content: &str, replaced_sha: &str) -> (r: JsonValue)
    requires
        encodable(content@),
    ensures
        r matches JsonValue::Object(members) && {
            let m = members@;
            &&& m.len() == if replaced_sha@.len() == 0 { 3int } else { 4int }
            &&& is_str_member(m[0], "message"@, message@)
            &&& is_str_member(m[1], "content"@, base64_text(vstd::utf8::encode_utf8(content@)))
            &&& is_str_member(m[2], "branch"@, "data"@)
            &&& replaced_sha@.len() > 0 ==> is_str_member(m[3], "sha"@, replaced_sha@)
        },
        download_text(base64_text(vstd::utf8::encode_utf8(content@))) == Some(content@),
        forall|wrapped: Seq<char>| remove_char(wrapped, '\n') == base64_text(vstd::utf8::encode_utf8(content@))
            ==> #[trigger] download_text(wrapped) == Some(content@),
{
    let encoded = base64_encode(content.as_bytes());
    proof {
        broadcast use vstd::utf8::encode_utf8_valid_utf8, vstd::utf8::encode_utf8_decode_utf8;
        let enc = base64_text(vstd::utf8::encode_utf8(content@));
        assert forall|i: int| 0 <= i < enc.len() implies enc[i] != '\n' by {
            assert(standard_base64_char(encoded@[i]));
        }
        lemma_remove_absent_char(enc, '\n');
        assert forall|wrapped: Seq<char>| remove_char(wrapped, '\n') == enc
            implies #[trigger] download_text(wrapped) == Some(content@) by {
            assert(download_payload(wrapped) == vstd::utf8::encode_utf8(enc));
        }
        assert(download_payload(enc) == vstd::utf8::encode_utf8(enc));
    }
    let mut members: Vec<(String, JsonValue)> = Vec::new();
    members.push(str_member("message", message.to_owned()));
    members.push(str_member("content", encoded));
    members.push(str_member("branch", "data".to_owned()));
    if !replaced_sha.is_empty() {
        members.push(str_member("sha", replaced_sha.to_owned()));
    }
    JsonValue::Object(members)
}

/// The commit message of an automatic upload made at `stamp`.
pub fn upload_commit_message(stamp: &str) -> (r: String)
    ensures
        r@ == "Auto-update: "@ + stamp@,
{
    concat_str("Auto-update: ", stamp)
}


/// The `sha` an upload replaces: the one GitHub reports for the file where
/// it answered successfully (`answer` is that answer), empty otherwise.
pub fn replaced_sha(answer: Option<&JsonValue>) -> (r: String)
    ensures
        match answer {
            Some(a) => r@ == remote_sha_of(*a),
            None => r@.len() == 0,
        },
{
    match answer {
        Some(a) => remote_sha(a),
        None => String::new(),
    }
}

/// The failure reported when GitHub refuses an upload; `detail` is the JSON
/// text of the `message` of its answer.
pub fn upload_refused_message(detail: &str) -> (r: String)
    ensures
        r@ == "GitHub Error: "@ + detail@,
{
    concat_str("GitHub Error: ", detail)
}

/// The failure reported when a download is answered with an unsuccessful
/// status; `status` is that status as text.
pub fn download_refused_message(status: &str) -> (r: String)
    ensures
        r@ == "Ошибка скачивания: "@ + status@,
{
    concat_str("Ошибка скачивания: ", status)
}

/// The failure reported when a commits answer holds no date.
pub fn missing_date_message() -> (r: String)
    ensures
        r@ == "Не удалось получить дату коммита"@,
{
    "Не удалось получить дату коммита".to_owned()
}

/// The headers of the request for the latest release: the user agent only.
pub fn release_headers() -> (h: GhHeaders)
    ensures
        h.user_agent@ == user_agent_text(),
        h.authorization is None,
{
    GhHeaders { user_agent: "ItemStorageBrowser-Manager".to_owned(), authorization: None }
}


/// The failure reported when a contents answer holds no `content`.
pub fn no_content_message() -> (r: String)
    ensures
        r@ == "No content"@,
{
    "No content".to_owned()
}

/// The address at which a token is tried: the authenticated user.
pub fn user_api_url() -> (r: String)
    ensures
        r@ == "https://api.github.com/user"@,
{
    "https://api.github.com/user".to_owned()
}

} // verus!
