use petool_core::memory::{
    collect_memory_hits, decode_jwt_sub, detect_text_model_provider, first_non_empty, has_term_overlap,
    normalize_memory_text, resolve_memory_user_id, sanitize_identifier, tokenize_terms, MemoryCandidate,
    TextModelProvider,
};
use petool_core::web::{
    is_forbidden_loopback_host, normalize_multiline_text, push_search_result, truncate_by_chars, HostAddress,
};

#[test]
fn model_providers_by_prefix() {
    assert_eq!(detect_text_model_provider(" GPT-4o"), TextModelProvider::OpenAi);
    assert_eq!(detect_text_model_provider("abab6.5"), TextModelProvider::MiniMax);
    assert_eq!(detect_text_model_provider("MiniMax-M2"), TextModelProvider::MiniMax);
    assert_eq!(detect_text_model_provider("ep-2024"), TextModelProvider::Doubao);
    assert_eq!(detect_text_model_provider("doubao-pro"), TextModelProvider::Doubao);
    assert_eq!(detect_text_model_provider("glm-4.6"), TextModelProvider::Glm);
}

#[test]
fn first_non_empty_skips_blanks() {
    assert_eq!(
        first_non_empty(vec![None, Some(" ".to_string()), Some(" k ".to_string())]),
        Some(" k ".to_string())
    );
    assert_eq!(first_non_empty(vec![None]), None);
}

#[test]
fn identifiers_are_sanitized() {
    assert_eq!(sanitize_identifier("John Doe"), "john_doe");
    assert_eq!(sanitize_identifier("__a__b__"), "a_b");
    assert_eq!(sanitize_identifier("!!!"), "default");
    assert_eq!(sanitize_identifier(""), "default");
}

#[test]
fn memory_text_is_collapsed_and_cut() {
    assert_eq!(normalize_memory_text("  a \n\t b  "), "a b");
    let long = "x".repeat(300);
    assert_eq!(normalize_memory_text(&long).chars().count(), 220);
}

#[test]
fn terms_and_overlap() {
    let terms = tokenize_terms("Hello, World! a b2");
    assert_eq!(terms, vec!["hello".to_string(), "world".to_string(), "b2".to_string()]);
    assert!(has_term_overlap(&terms, &vec!["world".to_string()]));
    assert!(!has_term_overlap(&terms, &vec!["zzz".to_string()]));
}

#[test]
fn memory_hits_filter_dedupe_and_limit() {
    let candidates = vec![
        MemoryCandidate { content: "likes  tea".to_string(), below_threshold: false },
        MemoryCandidate { content: "likes tea".to_string(), below_threshold: false },
        MemoryCandidate { content: "  ".to_string(), below_threshold: false },
        MemoryCandidate { content: "owns a cat".to_string(), below_threshold: true },
        MemoryCandidate { content: "tea time".to_string(), below_threshold: true },
    ];
    let hits = collect_memory_hits("tea please", &candidates);
    assert_eq!(hits, vec![(0, "likes tea".to_string()), (4, "tea time".to_string())]);
    let many: Vec<MemoryCandidate> = (0..20)
        .map(|i| MemoryCandidate { content: format!("fact {}", i), below_threshold: false })
        .collect();
    assert_eq!(collect_memory_hits("q", &many).len(), 8);
}

#[test]
fn jwt_subject_and_memory_user() {
    let token = "eyJhbGciOiJub25lIn0.eyJzdWIiOiJ1c2VyLTQyIn0.sig";
    assert_eq!(decode_jwt_sub(token), Some("user-42".to_string()));
    assert_eq!(decode_jwt_sub("nodots"), None);
    assert_eq!(resolve_memory_user_id(Some(token), vec![]), "petool:user-42");
    assert_eq!(resolve_memory_user_id(None, vec![None, Some("Ann B".to_string())]), "local:ann_b");
    assert_eq!(resolve_memory_user_id(None, vec![]), "local:default");
}

#[test]
fn multiline_text_is_normalised() {
    assert_eq!(normalize_multiline_text("  a   b \n\n\n c\n"), "a b\n\nc");
    assert_eq!(normalize_multiline_text("\n\n x"), "x");
}

#[test]
fn truncation_reports_cuts() {
    assert_eq!(truncate_by_chars("héllo", 2), ("hé".to_string(), true));
    assert_eq!(truncate_by_chars("hi", 2), ("hi".to_string(), false));
}

#[test]
fn search_results_are_filtered() {
    let mut results = Vec::new();
    push_search_result(&mut results, " T ", " https://a.com ", " s ", 2);
    push_search_result(&mut results, "T2", "https://a.com", "", 2);
    push_search_result(&mut results, "T3", "ftp://b.com", "", 2);
    push_search_result(&mut results, "", "https://c.com", "", 2);
    push_search_result(&mut results, "T4", "http://d.com", "", 2);
    push_search_result(&mut results, "T5", "http://e.com", "", 2);
    assert_eq!(results.len(), 2);
    assert_eq!(results[0].title, "T");
    assert_eq!(results[0].url, "https://a.com");
    assert_eq!(results[0].snippet, "s");
    assert_eq!(results[1].url, "http://d.com");
}

#[test]
fn local_hosts_are_forbidden() {
    assert!(is_forbidden_loopback_host(None, None));
    assert!(is_forbidden_loopback_host(Some("LocalHost"), None));
    assert!(is_forbidden_loopback_host(Some("printer.local"), None));
    assert!(is_forbidden_loopback_host(Some("10.1.2.3"), Some(HostAddress::V4(10, 1, 2, 3))));
    assert!(is_forbidden_loopback_host(Some("172.20.0.1"), Some(HostAddress::V4(172, 20, 0, 1))));
    assert!(!is_forbidden_loopback_host(Some("172.32.0.1"), Some(HostAddress::V4(172, 32, 0, 1))));
    assert!(is_forbidden_loopback_host(Some("169.254.1.1"), Some(HostAddress::V4(169, 254, 1, 1))));
    assert!(!is_forbidden_loopback_host(Some("8.8.8.8"), Some(HostAddress::V4(8, 8, 8, 8))));
    assert!(is_forbidden_loopback_host(Some("::1"), Some(HostAddress::V6(0, 0, 0, 0, 0, 0, 0, 1))));
    assert!(is_forbidden_loopback_host(Some("fd00::1"), Some(HostAddress::V6(0xfd00, 0, 0, 0, 0, 0, 0, 1))));
    assert!(!is_forbidden_loopback_host(Some("2001:db8::1"), Some(HostAddress::V6(0x2001, 0xdb8, 0, 0, 0, 0, 0, 1))));
    assert!(!is_forbidden_loopback_host(Some("example.com"), None));
}
