use ai_agent_pc::extractors::plaintext::{can_handle, extract, file_extension};
use ai_agent_pc::extractors::rtf::strip_rtf;
use ai_agent_pc::extractors::{extract_file, ExtractError};
use ai_agent_pc::utils::{format_file_size, is_hidden, supported_extensions};

#[test]
fn rtf_paragraphs_and_tabs() {
    assert_eq!(strip_rtf("{\\rtf1\\ansi Hello\\par World}"), "Hello\nWorld");
    assert_eq!(strip_rtf("a\\tab b\\line c"), "a\tb\nc");
}

#[test]
fn rtf_skips_destinations() {
    assert_eq!(strip_rtf("{\\rtf1{\\*\\generator Riched20;}Text}"), "Text");
    assert_eq!(strip_rtf("{\\rtf1{\\*\\a {nested} more}After}"), "After");
}

#[test]
fn rtf_control_symbols_and_hex() {
    assert_eq!(strip_rtf("\\{x\\}\\\\"), "{x}\\");
    assert_eq!(strip_rtf("caf\\'e9!"), "caf!");
    assert_eq!(strip_rtf("\\~x"), "x");
    assert_eq!(strip_rtf("end\\"), "end");
}

#[test]
fn rtf_parameters_and_spaces() {
    assert_eq!(strip_rtf("\\fs24 Big \\b-1 bold"), "Big bold");
    assert_eq!(strip_rtf("line1\r\nline2"), "line1line2");
}

#[test]
fn rtf_plain_text_unchanged() {
    let s = "Plain text, with punctuation: 1+2=3; ünïcödé too.";
    assert_eq!(strip_rtf(s), s);
}

#[test]
fn rtf_never_longer() {
    for s in ["{\\rtf1 a\\par b}", "\\par\\par", "{{{}}}", "x\\'41y", "\\tab"] {
        assert!(strip_rtf(s).chars().count() <= s.chars().count());
    }
}

#[test]
fn can_handle_is_case_insensitive() {
    assert!(can_handle("txt"));
    assert!(can_handle("TXT"));
    assert!(can_handle("Rtf"));
    assert!(can_handle("ps1"));
    assert!(!can_handle("pdf"));
    assert!(!can_handle(""));
}

#[test]
fn file_extension_lowercases() {
    assert_eq!(file_extension("/home/u/Notes.MD"), "md");
    assert_eq!(file_extension("/home/u/.bashrc"), "");
    assert_eq!(file_extension("/home/u/archive.tar.GZ"), "gz");
    assert_eq!(file_extension("noext"), "");
}

#[test]
fn extract_plain_and_rtf() {
    let r = extract("/d/a.txt", b"hello\nworld");
    assert_eq!(r.text, "hello\nworld");
    assert_eq!(r.metadata, vec![("extractor".to_string(), "plaintext".to_string()), ("extension".to_string(), "txt".to_string())]);
    let r = extract("/d/b.RTF", b"{\\rtf1 Hi\\par there}");
    assert_eq!(r.text, "Hi\nthere");
    let r = extract("/d/c.txt", &[0x66, 0x6f, 0xff, 0x6f]);
    assert_eq!(r.text, "fo\u{fffd}o");
}

#[test]
fn extract_file_dispatch() {
    let r = extract_file("/d/notes.Txt", b"abc").ok().unwrap();
    assert_eq!(r.text, "abc");
    match extract_file("/d/report.pdf", b"%PDF") {
        Err(ExtractError::Unsupported { extension, path }) => {
            assert_eq!(extension, "pdf");
            assert_eq!(path, "/d/report.pdf");
        }
        _ => panic!("expected an unsupported-extension error"),
    }
    let e = ExtractError::Unsupported { extension: "pdf".to_string(), path: "/d/report.pdf".to_string() };
    assert_eq!(e.message(), "No extractor available for extension 'pdf': /d/report.pdf");
}

#[test]
fn supported_extensions_list() {
    let exts = supported_extensions();
    assert_eq!(exts.len(), 26);
    assert_eq!(exts[0], "txt");
    assert_eq!(exts[25], "rtf");
    for e in &exts {
        assert!(can_handle(e));
    }
}

#[test]
fn hidden_paths() {
    assert!(is_hidden("/home/u/.git"));
    assert!(is_hidden(".env"));
    assert!(!is_hidden("/home/u/src"));
    assert!(!is_hidden("/"));
}

fn reference_size(bytes: i64) -> String {
    const KB: f64 = 1024.0;
    const MB: f64 = KB * 1024.0;
    const GB: f64 = MB * 1024.0;
    const TB: f64 = GB * 1024.0;
    let b = bytes as f64;
    if b >= TB {
        format!("{:.2} TB", b / TB)
    } else if b >= GB {
        format!("{:.2} GB", b / GB)
    } else if b >= MB {
        format!("{:.2} MB", b / MB)
    } else if b >= KB {
        format!("{:.2} KB", b / KB)
    } else {
        format!("{} B", bytes)
    }
}

#[test]
fn file_sizes() {
    assert_eq!(format_file_size(0), "0 B");
    assert_eq!(format_file_size(1023), "1023 B");
    assert_eq!(format_file_size(-5), "-5 B");
    assert_eq!(format_file_size(1024), "1.00 KB");
    assert_eq!(format_file_size(1536), "1.50 KB");
    assert_eq!(format_file_size(1048576), "1.00 MB");
    assert_eq!(format_file_size(5 * 1073741824), "5.00 GB");
    assert_eq!(format_file_size(1099511627776), "1.00 TB");
}

#[test]
fn file_sizes_match_float_formatting() {
    let mut samples: Vec<i64> = vec![1152, 1029, 3584, 1048064, 1073741823, i64::MAX, i64::MAX - 1, (1 << 53) + 1, (1 << 53) + 3, 9007199254740993, i64::MIN];
    let mut x: u64 = 0x9e3779b97f4a7c15;
    for _ in 0..20000 {
        x ^= x << 13;
        x ^= x >> 7;
        x ^= x << 17;
        let shift = (x % 63) as u32;
        samples.push(((x >> 1) >> shift) as i64);
    }
    for b in samples {
        assert_eq!(format_file_size(b), reference_size(b), "bytes = {}", b);
    }
}

#[test]
fn read_error_message_is_the_io_error() {
    let e = ExtractError::Io { path: "/d/a.txt".to_string(), reason: "No such file or directory (os error 2)".to_string() };
    assert_eq!(e.message(), "No such file or directory (os error 2)");
}
