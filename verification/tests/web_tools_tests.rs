use petool_core::web::{HostAddress, SearchResult};
use petool_core::web_tools::{
    check_fetch_target, fetch_attempt_limit, fetch_step, render_fetched, web_fetch_plan, web_search_plan,
    AttemptStatus, FetchStep, SendOutcome, WebFetchArgs, WebSearchArgs, WebSearchRun,
};

fn fetch_args(url: Option<&str>) -> WebFetchArgs {
    WebFetchArgs {
        url: url.map(str::to_string),
        timeout_ms: None,
        max_chars: None,
        retries: None,
        max_redirects: None,
        format: None,
        user_agent: None,
        accept_language: None,
    }
}

fn search_args(query: Option<&str>, provider: Option<&str>) -> WebSearchArgs {
    WebSearchArgs {
        query: query.map(str::to_string),
        max_results: None,
        timeout_ms: None,
        provider: provider.map(str::to_string),
        search_lang: None,
        ui_lang: None,
        country: None,
        user_agent: None,
        accept_language: None,
        exa_url: None,
    }
}

#[test]
fn fetch_plans_apply_defaults_and_limits() {
    let p = web_fetch_plan(&fetch_args(Some(" https://a.com "))).unwrap();
    assert_eq!(p.url, "https://a.com");
    assert_eq!((p.timeout_ms, p.max_chars, p.retries, p.max_redirects), (18_000, 50_000, 1, 5));
    assert_eq!(p.format, "auto");
    assert_eq!(p.accept, "*/*");
    assert!(p.user_agent.starts_with("Mozilla/5.0"));
    let mut a = fetch_args(Some("https://a.com"));
    a.timeout_ms = Some(5);
    a.max_chars = Some(10_000_000);
    a.retries = Some(9);
    a.format = Some(" HTML ".to_string());
    let p = web_fetch_plan(&a).unwrap();
    assert_eq!((p.timeout_ms, p.max_chars, p.retries), (1_000, 500_000, 3));
    assert_eq!(p.format, "html");
    assert_eq!(p.accept, "text/html,application/xhtml+xml;q=0.9,*/*;q=0.1");
    assert_eq!(web_fetch_plan(&fetch_args(None)).unwrap_err(), "'url' is required and cannot be empty");
}

#[test]
fn fetch_attempts_and_retries() {
    assert_eq!(fetch_attempt_limit(0), 1);
    assert_eq!(fetch_attempt_limit(1), 2);
    assert_eq!(fetch_attempt_limit(u64::MAX), 4);
    match fetch_step(1, 2, &SendOutcome::Failed("timeout".to_string())) {
        FetchStep::Retry { delay_ms, last_error } => {
            assert_eq!(delay_ms, 250);
            assert_eq!(last_error, "timeout");
        }
        other => panic!("unexpected {:?}", other),
    }
    assert!(matches!(fetch_step(2, 2, &SendOutcome::Failed("x".to_string())), FetchStep::Fail(_)));
    let answered = |status: u16, body: &str| SendOutcome::Answered {
        status,
        final_url: "https://a.com/".to_string(),
        body: body.to_string(),
    };
    assert!(matches!(fetch_step(1, 1, &answered(200, "ok")), FetchStep::Done));
    match fetch_step(1, 3, &answered(503, "busy")) {
        FetchStep::Retry { delay_ms, last_error } => {
            assert_eq!(delay_ms, 250);
            assert_eq!(last_error, "HTTP 503 from https://a.com/: busy");
        }
        other => panic!("unexpected {:?}", other),
    }
    match fetch_step(1, 3, &answered(404, "")) {
        FetchStep::Fail(m) => assert_eq!(m, "HTTP 404 from https://a.com/"),
        other => panic!("unexpected {:?}", other),
    }
    let long = "x".repeat(300);
    match fetch_step(2, 2, &answered(429, &long)) {
        FetchStep::Fail(m) => assert_eq!(m.len(), "HTTP 429 from https://a.com/: ".len() + 240),
        other => panic!("unexpected {:?}", other),
    }
}

#[test]
fn fetch_targets_are_checked() {
    assert_eq!(check_fetch_target("ftp", Some("a.com"), None).unwrap_err(), "Only http/https URLs are supported");
    assert_eq!(
        check_fetch_target("http", Some("127.0.0.1"), Some(HostAddress::V4(127, 0, 0, 1))).unwrap_err(),
        "Local/private hosts are not allowed"
    );
    assert!(check_fetch_target("https", Some("example.com"), None).is_ok());
}

#[test]
fn fetched_pages_are_rendered_by_format() {
    let html = "<p>Hi</p>".to_string();
    assert_eq!(render_fetched("html", Some("text/html"), html.clone()), (html.clone(), "raw_html".to_string()));
    assert_eq!(render_fetched("auto", Some("Text/HTML; charset=utf-8"), html.clone()), ("Hi".to_string(), "html_to_text".to_string()));
    assert_eq!(render_fetched("markdown", Some("text/plain"), "x".to_string()), ("x".to_string(), "raw".to_string()));
    assert_eq!(
        render_fetched("text", Some("application/json"), "{\"a\":1}".to_string()),
        ("{\n  \"a\": 1\n}".to_string(), "json_to_text".to_string())
    );
    assert_eq!(
        render_fetched("text", Some("application/json"), "not json".to_string()),
        ("not json".to_string(), "json_to_text".to_string())
    );
}

#[test]
fn search_plans_choose_providers() {
    let p = web_search_plan(&search_args(Some(" rust "), None)).unwrap();
    assert_eq!(p.query, "rust");
    assert_eq!(p.providers, vec!["exa", "bing", "duckduckgo", "duckduckgo_instant"]);
    assert_eq!((p.max_results, p.timeout_ms), (8, 18_000));
    assert_eq!((p.search_lang.as_str(), p.ui_lang.as_str(), p.country.as_str()), ("zh-CN", "zh-CN", "CN"));
    assert_eq!(p.exa_url, "https://mcp.exa.ai/mcp");
    let p = web_search_plan(&search_args(Some("q"), Some("DuckDuckGo"))).unwrap();
    assert_eq!(p.providers, vec!["duckduckgo", "duckduckgo_instant"]);
    assert_eq!(
        web_search_plan(&search_args(Some("q"), Some("google"))).unwrap_err(),
        "provider must be one of: auto|exa|bing|duckduckgo"
    );
    assert_eq!(web_search_plan(&search_args(None, Some("google"))).unwrap_err(), "'query' is required and cannot be empty");
}

#[test]
fn search_runs_stop_at_the_first_results() {
    let mut run = WebSearchRun::new(vec!["exa".to_string(), "bing".to_string(), "duckduckgo".to_string()]);
    assert_eq!(run.next_provider().as_deref(), Some("exa"));
    run.record(Err("down".to_string()));
    assert_eq!(run.next_provider().as_deref(), Some("bing"));
    run.record(Ok(Vec::new()));
    assert_eq!(run.next_provider().as_deref(), Some("duckduckgo"));
    let hit = SearchResult { title: "t".to_string(), url: "https://a".to_string(), snippet: String::new() };
    run.record(Ok(vec![hit]));
    assert_eq!(run.next_provider(), None);
    assert_eq!(run.provider_used.as_deref(), Some("duckduckgo"));
    assert_eq!(run.results.len(), 1);
    assert!(matches!(run.attempts[0].status, AttemptStatus::Failed(ref e) if e == "down"));
    assert!(matches!(run.attempts[1].status, AttemptStatus::Answered(0)));
}
