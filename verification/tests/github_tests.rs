use item_storage_manager::github::{
    calculate_github_sha, contents_url, data_branch_url, db_file_in_repo, decode_download,
    download_refused_message, get_gh_headers, last_commit_url, latest_release_url,
    missing_date_message, release_headers, release_info, remote_file_time, remote_sha,
    replaced_sha, upload_body, upload_commit_message, upload_refused_message, DownloadError,
    RemoteTimeError,
};
use item_storage_manager::json::JsonValue;

fn obj(members: Vec<(&str, JsonValue)>) -> JsonValue {
    JsonValue::Object(members.into_iter().map(|(k, v)| (k.to_string(), v)).collect())
}

fn s(text: &str) -> JsonValue {
    JsonValue::Str(text.to_string())
}

#[test]
fn github_sha_of_known_blobs() {
    assert_eq!(calculate_github_sha(""), "e69de29bb2d1d6434b8b29ae775ad8c2e48c5391");
    assert_eq!(calculate_github_sha("hello\n"), "ce013625030ba8dba906f756967f9e9ca394464a");
    // The length in the header counts bytes, not characters.
    assert_eq!(calculate_github_sha("é"), "4b04fff51468d8ab5201ab02b725dc477bc7cb45");
    assert_eq!(calculate_github_sha("[\"x\"]"), "93d2aae605e00e6975589e6c981b7feac78896e9");
}

#[test]
fn headers_without_token_have_no_authorization() {
    let h = get_gh_headers("");
    assert_eq!(h.user_agent, "ItemStorageBrowser-Manager");
    assert_eq!(h.authorization, None);
}

#[test]
fn headers_with_token_carry_it() {
    let h = get_gh_headers("ghp_abc123");
    assert_eq!(h.user_agent, "ItemStorageBrowser-Manager");
    assert_eq!(h.authorization, Some("token ghp_abc123".to_string()));
}

#[test]
fn headers_drop_a_token_http_refuses() {
    assert_eq!(get_gh_headers("abc\ndef").authorization, None);
    assert_eq!(get_gh_headers("abc\u{7f}").authorization, None);
    // Tabs and bytes from 0x80 up are accepted.
    assert_eq!(get_gh_headers("a\tb").authorization, Some("token a\tb".to_string()));
    assert_eq!(get_gh_headers("тест").authorization, Some("token тест".to_string()));
}

#[test]
fn release_request_sends_only_the_user_agent() {
    let h = release_headers();
    assert_eq!(h.user_agent, "ItemStorageBrowser-Manager");
    assert_eq!(h.authorization, None);
}

#[test]
fn addresses_of_github() {
    assert_eq!(db_file_in_repo(), "ItemStorageDB.lua");
    assert_eq!(
        contents_url("ItemStorageDB.lua"),
        "https://api.github.com/repos/Phoenix-Guilds/ItemStorageBrowser/contents/ItemStorageDB.lua"
    );
    assert_eq!(
        data_branch_url("ItemStorageDB.lua"),
        "https://api.github.com/repos/Phoenix-Guilds/ItemStorageBrowser/contents/ItemStorageDB.lua?ref=data"
    );
    assert_eq!(
        last_commit_url("ItemStorageDB.lua"),
        "https://api.github.com/repos/Phoenix-Guilds/ItemStorageBrowser/commits?path=ItemStorageDB.lua&sha=data&per_page=1"
    );
    assert_eq!(
        latest_release_url(),
        "https://api.github.com/repos/Phoenix-Guilds/ItemStorageDesktop/releases/latest"
    );
}

#[test]
fn remote_sha_defaults_to_empty() {
    assert_eq!(remote_sha(&obj(vec![("sha", s("abc"))])), "abc");
    assert_eq!(remote_sha(&obj(vec![("sha", JsonValue::Number("1".to_string()))])), "");
    assert_eq!(remote_sha(&JsonValue::Null), "");
    assert_eq!(replaced_sha(Some(&obj(vec![("sha", s("abc"))]))), "abc");
    assert_eq!(replaced_sha(None), "");
}

#[test]
fn release_info_with_defaults() {
    let full = obj(vec![("tag_name", s("v1.4.0")), ("html_url", s("https://x/r"))]);
    assert_eq!(release_info(&full), ("v1.4.0".to_string(), "https://x/r".to_string()));
    assert_eq!(release_info(&obj(vec![])), ("v0.0.0".to_string(), String::new()));
}

fn commits_with_date(date: JsonValue) -> JsonValue {
    JsonValue::Array(vec![obj(vec![("commit", obj(vec![("committer", obj(vec![("date", date)]))]))])])
}

#[test]
fn remote_file_time_reads_the_committer_date() {
    let t = remote_file_time(&commits_with_date(s("2024-01-02T03:04:05Z")));
    assert!(matches!(t, Ok(1704164645)));
    let t = remote_file_time(&commits_with_date(s("2024-01-02T06:04:05+03:00")));
    assert!(matches!(t, Ok(1704164645)));
}

#[test]
fn remote_file_time_before_1970_wraps_as_u64() {
    let t = remote_file_time(&commits_with_date(s("1969-12-31T23:59:59Z")));
    assert!(matches!(t, Ok(u64::MAX)));
}

#[test]
fn remote_file_time_errors() {
    assert!(matches!(remote_file_time(&JsonValue::Array(vec![])), Err(RemoteTimeError::MissingDate)));
    assert!(matches!(
        remote_file_time(&commits_with_date(JsonValue::Number("5".to_string()))),
        Err(RemoteTimeError::MissingDate)
    ));
    assert!(matches!(
        remote_file_time(&commits_with_date(s("yesterday"))),
        Err(RemoteTimeError::BadDate(_))
    ));
    assert_eq!(missing_date_message(), "Не удалось получить дату коммита");
}

#[test]
fn download_decodes_base64_across_line_breaks() {
    let answer = obj(vec![("content", s("aGVs\nbG8=\n"))]);
    assert_eq!(decode_download(&answer).unwrap(), "hello");
    let answer = obj(vec![("content", s("0J/RgNC4\n0LLQtdGC"))]);
    assert_eq!(decode_download(&answer).unwrap(), "Привет");
}

#[test]
fn download_errors() {
    assert!(matches!(decode_download(&obj(vec![])), Err(DownloadError::NoContent)));
    assert!(matches!(
        decode_download(&obj(vec![("content", s("!!!!"))])),
        Err(DownloadError::NotBase64(_))
    ));
    assert!(matches!(
        decode_download(&obj(vec![("content", s("/w=="))])),
        Err(DownloadError::NotUtf8(_))
    ));
    assert_eq!(download_refused_message("404 Not Found"), "Ошибка скачивания: 404 Not Found");
}

#[test]
fn upload_body_members() {
    let body = upload_body("Auto-update: 2024-01-01 10:00", "hello", "");
    assert_eq!(
        body,
        obj(vec![
            ("message", s("Auto-update: 2024-01-01 10:00")),
            ("content", s("aGVsbG8=")),
            ("branch", s("data")),
        ])
    );
    let body = upload_body("m", "Привет", "abc");
    assert_eq!(
        body,
        obj(vec![
            ("message", s("m")),
            ("content", s("0J/RgNC40LLQtdGC")),
            ("branch", s("data")),
            ("sha", s("abc")),
        ])
    );
}

#[test]
fn upload_messages() {
    assert_eq!(upload_commit_message("2024-05-06 07:08"), "Auto-update: 2024-05-06 07:08");
    assert_eq!(upload_refused_message("\"Bad credentials\""), "GitHub Error: \"Bad credentials\"");
}

#[test]
fn uploaded_text_comes_back_from_a_download() {
    let text = "local = { [\"Кольцо\"] = 3 }\n";
    let body = upload_body("m", text, "");
    let encoded = match body.get("content").and_then(|c| c.as_str()) {
        Some(e) => e.to_string(),
        None => panic!("no content"),
    };
    // GitHub answers with the Base64 broken into lines.
    let mut wrapped = String::new();
    for (i, ch) in encoded.chars().enumerate() {
        if i > 0 && i % 60 == 0 {
            wrapped.push('\n');
        }
        wrapped.push(ch);
    }
    let answer = obj(vec![("content", JsonValue::Str(wrapped))]);
    assert_eq!(decode_download(&answer).unwrap(), text);
}

#[test]
fn github_sha_is_forty_lower_case_hex_digits() {
    for text in ["", "a", "Привет\n", "local db = {}"] {
        let sha = calculate_github_sha(text);
        assert_eq!(sha.len(), 40);
        assert!(sha.chars().all(|c| c.is_ascii_digit() || ('a'..='f').contains(&c)));
    }
}
