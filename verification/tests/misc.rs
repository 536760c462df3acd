use n8n_cli::error::{ApiErrorResponse, N8nError};
use n8n_cli::models::common::{fits_truncate, format_timestamp_str, truncate, try_truncate};
use n8n_cli::models::credential::Credential;
use n8n_cli::models::execution::{Execution, ExecutionStatus};
use n8n_cli::models::tag::Tag;
use n8n_cli::output::{OutputFormat, Rendering};
use n8n_cli::pagination::PaginationParams;
use n8n_cli::text::{
    contains_ignore_case_str, is_blank_str, join2, join3, push_decimal, push_signed,
};

#[test]
fn truncate_keeps_short_texts() {
    assert_eq!(truncate("hello", 5), "hello");
    assert_eq!(truncate("hello", 10), "hello");
    assert_eq!(truncate("", 0), "");
}

#[test]
fn truncate_cuts_three_bytes_before_the_limit() {
    assert_eq!(truncate("hello world", 8), "hello...");
    assert_eq!(truncate("hello", 4), "h...");
    assert_eq!(truncate("hello", 3), "...");
    assert_eq!(truncate("hello", 2), "...");
    assert_eq!(truncate("hello", 0), "...");
}

#[test]
fn truncate_counts_bytes() {
    assert_eq!(truncate("h\u{e9}llo w\u{f6}rld", 9), "h\u{e9}llo...");
    assert!(fits_truncate("h\u{e9}llo w\u{f6}rld", 9));
    assert!(!fits_truncate("h\u{e9}llo w\u{f6}rld", 5));
    assert_eq!(try_truncate("h\u{e9}llo w\u{f6}rld", 5), None);
    assert_eq!(try_truncate("h\u{e9}llo w\u{f6}rld", 6), Some("h\u{e9}...".to_string()));
}

#[test]
fn timestamps_are_shown_to_the_minute() {
    assert_eq!(format_timestamp_str("2024-01-15T10:30:00Z"), "2024-01-15 10:30");
    assert_eq!(format_timestamp_str("2024-01-15T10:30:59.123+05:30"), "2024-01-15 10:30");
    assert_eq!(format_timestamp_str("1996-12-19T16:39:57-08:00"), "1996-12-19 16:39");
}

#[test]
fn what_is_no_timestamp_is_shown_as_it_came() {
    assert_eq!(format_timestamp_str("yesterday"), "yesterday");
    assert_eq!(format_timestamp_str(""), "");
    assert_eq!(format_timestamp_str("2024-01-15"), "2024-01-15");
}

#[test]
fn exit_codes_follow_the_kind_of_error() {
    let api = |code: u16| N8nError::Api(ApiErrorResponse { code, message: "m".to_string(), hint: None });
    assert_eq!(N8nError::Config("x".to_string()).exit_code(), 78);
    assert_eq!(N8nError::ProfileNotFound("x".to_string()).exit_code(), 78);
    assert_eq!(N8nError::ConfigFileRead("x".to_string()).exit_code(), 78);
    assert_eq!(N8nError::ConfigFileParse("x".to_string()).exit_code(), 78);
    assert_eq!(N8nError::MissingBaseUrl.exit_code(), 78);
    assert_eq!(N8nError::InvalidApiKey.exit_code(), 77);
    assert_eq!(N8nError::MissingApiKey.exit_code(), 77);
    assert_eq!(api(401).exit_code(), 77);
    assert_eq!(api(403).exit_code(), 77);
    assert_eq!(api(404).exit_code(), 69);
    assert_eq!(api(500).exit_code(), 1);
    assert_eq!(N8nError::WorkflowNotFound("x".to_string()).exit_code(), 69);
    assert_eq!(N8nError::ExecutionNotFound("x".to_string()).exit_code(), 69);
    assert_eq!(N8nError::CredentialNotFound("x".to_string()).exit_code(), 69);
    assert_eq!(
        N8nError::ConnectionFailed { url: "u".to_string(), message: "m".to_string() }.exit_code(),
        69
    );
    assert_eq!(N8nError::Request("x".to_string()).exit_code(), 69);
    assert_eq!(N8nError::HttpClient("x".to_string()).exit_code(), 69);
    assert_eq!(N8nError::FileRead { path: "p".to_string(), source: "s".to_string() }.exit_code(), 74);
    assert_eq!(N8nError::FileWrite { path: "p".to_string(), source: "s".to_string() }.exit_code(), 74);
    assert_eq!(N8nError::StdinRead("x".to_string()).exit_code(), 74);
    assert_eq!(N8nError::InvalidInput("x".to_string()).exit_code(), 65);
    assert_eq!(N8nError::Serialize("x".to_string()).exit_code(), 65);
    assert_eq!(N8nError::Deserialize("x".to_string()).exit_code(), 65);
    assert_eq!(N8nError::Cancelled.exit_code(), 130);
    assert_eq!(N8nError::NodeNotFound("x".to_string()).exit_code(), 69);
    assert_eq!(
        N8nError::ConnectionNotFound { from: "a".to_string(), to: "b".to_string() }.exit_code(),
        69
    );
    assert_eq!(N8nError::ValidationFailed("x".to_string()).exit_code(), 65);
    assert_eq!(N8nError::EditorFailed("x".to_string()).exit_code(), 74);
    assert_eq!(N8nError::NoChanges.exit_code(), 0);
}

#[test]
fn error_messages_name_what_went_wrong() {
    assert_eq!(N8nError::Config("bad".to_string()).message(), "Configuration error: bad");
    assert_eq!(N8nError::InvalidApiKey.message(), "Invalid API key format");
    assert_eq!(
        N8nError::ProfileNotFound("p".to_string()).message(),
        "Profile 'p' not found in configuration"
    );
    assert_eq!(
        N8nError::ConnectionFailed { url: "http://x".to_string(), message: "refused".to_string() }
            .message(),
        "Connection failed to http://x: refused\n\nHint: Check that n8n is running and accessible"
    );
    assert_eq!(
        N8nError::FileRead { path: "a.json".to_string(), source: "denied".to_string() }.message(),
        "Failed to read file 'a.json': denied"
    );
    assert_eq!(
        N8nError::FileWrite { path: "a.json".to_string(), source: "denied".to_string() }.message(),
        "Failed to write file 'a.json': denied"
    );
    assert_eq!(N8nError::NodeNotFound("n".to_string()).message(), "Node 'n' not found in workflow");
    assert_eq!(
        N8nError::ConnectionNotFound { from: "a".to_string(), to: "b".to_string() }.message(),
        "Connection not found: a -> b"
    );
    assert_eq!(
        N8nError::ValidationFailed("ERROR: x".to_string()).message(),
        "Validation failed:\nERROR: x"
    );
    assert_eq!(N8nError::NoChanges.message(), "No changes detected");
    assert_eq!(N8nError::Cancelled.message(), "Operation cancelled by user");
    assert_eq!(N8nError::WorkflowNotFound("7".to_string()).message(), "Workflow '7' not found");
}

#[test]
fn api_error_shows_its_hint_below_the_message() {
    let with_hint = ApiErrorResponse {
        code: 400,
        message: "Bad request".to_string(),
        hint: Some("check the body".to_string()),
    };
    assert_eq!(with_hint.user_message(), "Bad request\n\nHint: check the body");
    let without = ApiErrorResponse { code: 400, message: "Bad request".to_string(), hint: None };
    assert_eq!(without.user_message(), "Bad request");
    assert_eq!(N8nError::Api(with_hint.clone()).message(), "Bad request\n\nHint: check the body");
}

#[test]
fn unknown_api_error_names_the_status() {
    let e = ApiErrorResponse::unknown(502, "502 Bad Gateway");
    assert_eq!(e.code, 502);
    assert_eq!(e.message, "Request failed with status 502 Bad Gateway");
    assert!(e.hint.is_none());
}

#[test]
fn page_size_is_capped() {
    assert_eq!(PaginationParams::new().limit, None);
    assert_eq!(PaginationParams::new().with_limit(10).limit, Some(10));
    assert_eq!(PaginationParams::new().with_limit(250).limit, Some(250));
    assert_eq!(PaginationParams::new().with_limit(251).limit, Some(250));
    assert_eq!(PaginationParams::new().with_limit(u32::MAX).limit, Some(250));
    assert_eq!(PaginationParams::new().with_limit(0).limit, Some(0));
}

#[test]
fn cursor_is_kept_beside_the_limit() {
    let p = PaginationParams::new().with_limit(5).with_cursor(Some("next".to_string()));
    assert_eq!(p.limit, Some(5));
    assert_eq!(p.cursor, Some("next".to_string()));
    let p = p.with_cursor(None);
    assert_eq!(p.limit, Some(5));
    assert_eq!(p.cursor, None);
}

#[test]
fn single_items_are_never_shown_as_a_table() {
    assert_eq!(OutputFormat::default(), OutputFormat::Table);
    assert_eq!(OutputFormat::Table.for_list(), Rendering::Table);
    assert_eq!(OutputFormat::Json.for_list(), Rendering::CompactJson);
    assert_eq!(OutputFormat::JsonPretty.for_list(), Rendering::PrettyJson);
    assert_eq!(OutputFormat::Table.for_single(), Rendering::CompactJson);
    assert_eq!(OutputFormat::Json.for_single(), Rendering::CompactJson);
    assert_eq!(OutputFormat::JsonPretty.for_single(), Rendering::PrettyJson);
}

#[test]
fn blank_means_white_space_only() {
    assert!(is_blank_str(""));
    assert!(is_blank_str(" \t\r\n"));
    assert!(is_blank_str("\u{2003}\u{3000}\u{85}"));
    assert!(!is_blank_str(" a "));
    assert!(!is_blank_str("\u{200b}"));
}

#[test]
fn search_ignores_ascii_case_only() {
    assert!(contains_ignore_case_str("abcTRIGger", "trigger"));
    assert!(contains_ignore_case_str("x", ""));
    assert!(contains_ignore_case_str("", ""));
    assert!(!contains_ignore_case_str("", "a"));
    assert!(!contains_ignore_case_str("trigge", "trigger"));
    assert!(!contains_ignore_case_str("\u{c4}", "\u{e4}"));
}

#[test]
fn numbers_are_written_in_decimal() {
    let mut s = String::from("n=");
    push_decimal(&mut s, 0);
    s.push(' ');
    push_decimal(&mut s, 7);
    s.push(' ');
    push_decimal(&mut s, 1_000_200);
    s.push(' ');
    push_decimal(&mut s, u64::MAX);
    assert_eq!(s, "n=0 7 1000200 18446744073709551615");
    let mut s = String::new();
    push_signed(&mut s, i32::MIN);
    s.push(' ');
    push_signed(&mut s, -1);
    s.push(' ');
    push_signed(&mut s, i32::MAX);
    assert_eq!(s, "-2147483648 -1 2147483647");
}

#[test]
fn joining_keeps_the_order() {
    assert_eq!(join2("a", "b"), "ab");
    assert_eq!(join3("a", "", "c"), "ac");
}

#[test]
fn execution_row_shows_state_and_times() {
    let e = Execution {
        id: "9".to_string(),
        workflow_id: "3".to_string(),
        status: ExecutionStatus::Waiting,
        started_at: "2024-02-29T23:59:59Z".to_string(),
        stopped_at: None,
        finished: false,
        mode: "manual".to_string(),
    };
    assert_eq!(Execution::headers(), vec!["ID", "WORKFLOW", "STATUS", "MODE", "STARTED", "STOPPED"]);
    assert_eq!(
        e.row(),
        vec![
            "9".to_string(),
            "3".to_string(),
            "waiting".to_string(),
            "manual".to_string(),
            "2024-02-29 23:59".to_string(),
            "-".to_string(),
        ]
    );
    assert_eq!(ExecutionStatus::Running.label(), "running");
    assert_eq!(ExecutionStatus::Success.label(), "success");
    assert_eq!(ExecutionStatus::Error.label(), "error");
    assert_eq!(ExecutionStatus::Canceled.label(), "canceled");
    assert_eq!(ExecutionStatus::Unknown.label(), "unknown");
}

#[test]
fn tag_and_credential_rows() {
    let t = Tag {
        id: "1".to_string(),
        name: "prod".to_string(),
        created_at: None,
        updated_at: Some("not a date".to_string()),
    };
    assert_eq!(Tag::headers(), vec!["ID", "NAME", "UPDATED"]);
    assert_eq!(t.row(), vec!["1".to_string(), "prod".to_string(), "not a date".to_string()]);
    let c = Credential {
        id: "5".to_string(),
        name: "A credential with a name that is too long".to_string(),
        credential_type: "httpBasicAuth".to_string(),
        created_at: "2024-01-01T00:00:00Z".to_string(),
        updated_at: "2024-01-02T03:04:05Z".to_string(),
    };
    assert_eq!(Credential::headers(), vec!["ID", "NAME", "TYPE", "UPDATED"]);
    assert_eq!(
        c.row(),
        vec![
            "5".to_string(),
            "A credential with a name th...".to_string(),
            "httpBasicAuth".to_string(),
            "2024-01-02 03:04".to_string(),
        ]
    );
}
