use ai_agent_pc::commands::ai::{
    connection_test_messages, provider_not_found, session_provider_id, transform_messages, transform_tool_messages,
};
use ai_agent_pc::commands::document::{file_not_found, no_record, open_failed, opened};
use ai_agent_pc::commands::indexing::{scan_request, scan_started};
use ai_agent_pc::commands::search::{build_search_results, passes_filters, search_limit, SearchFilters};
use ai_agent_pc::db::models::{ChatSession, FileRecord};
use ai_agent_pc::db::queries::files_by_ids_sql;
use ai_agent_pc::indexer::pipeline::{
    blake3_hex, file_record, file_time_text, format_utc, is_up_to_date, scan_progress, status_after_extraction,
};
use ai_agent_pc::indexer::scanner::{should_enter, skip_dirs, wants_file};
use ai_agent_pc::utils::supported_extensions;

fn record(path: &str, ext: &str, drive: &str, hash: &str, status: &str) -> FileRecord {
    FileRecord {
        id: Some(7),
        path: path.to_string(),
        filename: path.rsplit('/').next().unwrap().to_string(),
        extension: ext.to_string(),
        size_bytes: 10,
        modified_at: "2024-01-01T00:00:00Z".to_string(),
        created_at: String::new(),
        blake3_hash: hash.to_string(),
        index_status: status.to_string(),
        drive: drive.to_string(),
    }
}

fn filters(exts: Option<Vec<&str>>, drive: Option<&str>, max: Option<usize>) -> SearchFilters {
    SearchFilters {
        extensions: exts.map(|v| v.into_iter().map(|s| s.to_string()).collect()),
        drive: drive.map(|d| d.to_string()),
        max_results: max,
    }
}

#[test]
fn search_limit_defaults_to_fifty() {
    assert_eq!(search_limit(&filters(None, None, None)), 50);
    assert_eq!(search_limit(&filters(None, None, Some(5))), 5);
}

#[test]
fn filters_on_extension_and_drive() {
    let r = record("/a/b.txt", "txt", "/", "h", "indexed");
    assert!(passes_filters(&filters(None, None, None), &r));
    assert!(passes_filters(&filters(Some(vec![]), Some(""), None), &r));
    assert!(passes_filters(&filters(Some(vec!["md", "txt"]), Some("/"), None), &r));
    assert!(!passes_filters(&filters(Some(vec!["md"]), None, None), &r));
    assert!(!passes_filters(&filters(None, Some("C:"), None), &r));
}

#[test]
fn search_results_keep_rank_order_and_skip_missing() {
    let snippets = vec!["one".to_string(), "two".to_string(), "three".to_string(), "four".to_string()];
    let records = vec![
        Some(record("/a/1.txt", "txt", "/", "h", "indexed")),
        None,
        Some(record("/a/3.md", "md", "/", "h", "indexed")),
        Some(record("/a/4.txt", "txt", "/", "h", "indexed")),
    ];
    let out = build_search_results(&snippets, &records, &filters(Some(vec!["txt"]), None, None));
    assert_eq!(out.len(), 2);
    assert_eq!(out[0].path, "/a/1.txt");
    assert_eq!(out[0].snippet, "one");
    assert_eq!(out[0].id, 7);
    assert_eq!(out[1].path, "/a/4.txt");
    assert_eq!(out[1].snippet, "four");
    assert_eq!(out[1].filename, "4.txt");
    let all = build_search_results(&snippets, &records, &filters(None, None, None));
    assert_eq!(all.len(), 3);
    assert_eq!(all[1].snippet, "three");
}

#[test]
fn scan_request_checks() {
    assert_eq!(scan_request(true, true, "/x"), Err("A scan is already in progress".to_string()));
    assert_eq!(scan_request(false, false, "/x"), Err("Path does not exist or is not a directory: /x".to_string()));
    assert_eq!(scan_request(false, true, "/x"), Ok(()));
    assert_eq!(scan_started("/home"), "Scan started for: /home");
}

#[test]
fn document_messages() {
    assert_eq!(file_not_found("/a.txt"), "File not found: /a.txt");
    assert_eq!(opened("/a.txt"), "Opened: /a.txt");
    assert_eq!(open_failed("no handler"), "Failed to open file: no handler");
    assert_eq!(no_record("/a.txt"), "No record found for path: /a.txt");
}

#[test]
fn ai_command_messages() {
    assert_eq!(provider_not_found(42), "Provider with id 42 not found");
    assert_eq!(provider_not_found(-3), "Provider with id -3 not found");
    let m = connection_test_messages();
    assert_eq!(m.len(), 1);
    assert_eq!(m[0].role, "user");
    assert_eq!(m[0].content, "Say 'Hello! Connection successful.' in exactly those words.");
    let s = ChatSession {
        id: Some(1),
        title: "t".to_string(),
        provider_id: Some(9),
        created_at: String::new(),
        updated_at: String::new(),
    };
    assert_eq!(session_provider_id(&Some(s)), Some(9));
    assert_eq!(session_provider_id(&None), None);
}

#[test]
fn transform_prompt_holds_document() {
    let m = transform_messages("/d.txt", "hello", "shout");
    assert_eq!(m.len(), 2);
    assert_eq!(m[0].role, "system");
    assert!(m[0].content.ends_with("--- Document: /d.txt ---\nhello"));
    assert!(m[0].content.starts_with("You are a document transformation assistant."));
    assert_eq!(m[1].role, "user");
    assert_eq!(m[1].content, "shout");
}

#[test]
fn transform_prompt_truncates_long_text() {
    let text = "x".repeat(9000);
    let m = transform_messages("/d.txt", &text, "p");
    let expected_tail = format!("--- Document: /d.txt ---\n{}...\n[truncated]", "x".repeat(8000));
    assert!(m[0].content.ends_with(&expected_tail));
    let exact = "y".repeat(8000);
    let m2 = transform_messages("/d.txt", &exact, "p");
    assert!(m2[0].content.ends_with(&format!("---\n{}", exact)));
}

#[test]
fn scanner_skips_hidden_and_junk() {
    assert!(should_enter(".hidden", 0, true));
    assert!(!should_enter(".hidden", 1, false));
    assert!(!should_enter("node_modules", 2, true));
    assert!(should_enter("node_modules", 2, false));
    assert!(should_enter("docs", 1, true));
    assert_eq!(skip_dirs().len(), 19);
}

#[test]
fn scanner_keeps_supported_files() {
    let exts = supported_extensions();
    assert!(wants_file("/a/Report.TXT", true, &exts));
    assert!(wants_file("/a/notes.rtf", true, &exts));
    assert!(!wants_file("/a/photo.png", true, &exts));
    assert!(!wants_file("/a/readme.txt", false, &exts));
    assert!(!wants_file("/a/Makefile", true, &exts));
}

#[test]
fn scan_progress_counts() {
    let p = scan_progress(&vec![true, false, true, true]);
    assert_eq!(p.total_discovered, 4);
    assert_eq!(p.indexed, 3);
    assert_eq!(p.failed, 1);
    let e = scan_progress(&vec![]);
    assert_eq!((e.total_discovered, e.indexed, e.failed), (0, 0, 0));
}

#[test]
fn hashes_and_times() {
    assert_eq!(blake3_hex(b"abc"), "6437b3ac38465133ffb63b75273a8db548c558465d79db03fd359c6cd5bd9d85");
    assert_eq!(format_utc(0, 0), Some("1970-01-01T00:00:00Z".to_string()));
    assert_eq!(format_utc(86_400 + 3661, 5), Some("1970-01-02T01:01:01Z".to_string()));
    assert_eq!(file_time_text(None), "");
    assert_eq!(file_time_text(Some((0, 0))), "1970-01-01T00:00:00Z");
}

#[test]
fn record_of_a_file() {
    let r = file_record("/home/u/Notes.TXT", 3, Some((0, 0)), None, b"abc");
    assert_eq!(r.id, None);
    assert_eq!(r.path, "/home/u/Notes.TXT");
    assert_eq!(r.filename, "Notes.TXT");
    assert_eq!(r.extension, "txt");
    assert_eq!(r.size_bytes, 3);
    assert_eq!(r.modified_at, "1970-01-01T00:00:00Z");
    assert_eq!(r.created_at, "");
    assert_eq!(r.blake3_hash, "6437b3ac38465133ffb63b75273a8db548c558465d79db03fd359c6cd5bd9d85");
    assert_eq!(r.index_status, "pending");
    assert_eq!(r.drive, "/");
}

#[test]
fn up_to_date_needs_same_hash_and_indexed() {
    let done = Some(record("/a.txt", "txt", "/", "h1", "indexed"));
    assert!(is_up_to_date(&done, "h1"));
    assert!(!is_up_to_date(&done, "h2"));
    assert!(!is_up_to_date(&Some(record("/a.txt", "txt", "/", "h1", "failed")), "h1"));
    assert!(!is_up_to_date(&None, "h1"));
    assert_eq!(status_after_extraction(true), "indexed");
    assert_eq!(status_after_extraction(false), "failed");
}

#[test]
fn placeholders_per_id() {
    assert_eq!(
        files_by_ids_sql(3),
        "SELECT id, path, filename, extension, size_bytes, modified_at, created_at, blake3_hash, index_status, drive\n         FROM files WHERE id IN (?, ?, ?)"
    );
    assert!(files_by_ids_sql(1).ends_with("IN (?)"));
}

#[test]
fn transform_tool_refuses_a_cut_inside_a_character() {
    let text = format!("{}é", "x".repeat(7999));
    assert_eq!(
        transform_tool_messages("/d.txt", &text, "p").err(),
        Some("transform_document cannot cut the document at byte 8000, which falls inside a character".to_string())
    );
    let ok = transform_tool_messages("/d.txt", "short", "p").unwrap();
    assert_eq!(ok.len(), 2);
    assert!(ok[0].content.ends_with("--- Document: /d.txt ---\nshort"));
    assert_eq!(ok[1].content, "p");
}
