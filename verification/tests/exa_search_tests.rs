use petool_core::web_tools::{
    bing_search_url, duckduckgo_instant_query, duckduckgo_search_url, exa_merged_text_of, exa_request_error,
    exa_search_results,
};

#[test]
fn exa_stream_texts_are_merged() {
    let response = "event: message\n\
data: {\"result\":{\"content\":[{\"type\":\"text\",\"text\":\"first\"},{\"type\":\"image\",\"text\":\"x\"},{\"type\":\"text\",\"text\":\"  \"}]}}\n\
data: [DONE]\n\
data: not json\n\
data: {\"result\":{\"content\":[{\"type\":\"text\",\"text\":\"second\"}]}}\n";
    assert_eq!(exa_merged_text_of(response), "first\nsecond");
    assert_eq!(exa_merged_text_of("data: \n"), "");
}

#[test]
fn exa_falls_back_to_a_summary() {
    let response = "data: {\"result\":{\"content\":[{\"type\":\"text\",\"text\":\"some answer\"}]}}\n";
    let results = exa_search_results("rust", response, 5);
    assert_eq!(results.len(), 1);
    assert_eq!(results[0].title, "Exa search summary: rust");
    assert_eq!(results[0].url, "https://mcp.exa.ai/");
    assert_eq!(results[0].snippet, "some answer");
    assert!(exa_search_results("rust", "data: [DONE]\n", 5).is_empty());
    assert_eq!(exa_request_error(503, "busy"), "Exa MCP request failed (503): busy");
    let long = "x".repeat(300);
    assert_eq!(exa_request_error(500, &long).len(), "Exa MCP request failed (500): ".len() + 240);
}

#[test]
fn search_addresses_carry_their_queries() {
    assert_eq!(
        bing_search_url("a b&c", "zh-CN", "CN").unwrap(),
        "https://www.bing.com/search?q=a+b%26c&setlang=zh-CN&cc=CN"
    );
    assert_eq!(duckduckgo_search_url("rust", "cn-zh").unwrap(), "https://duckduckgo.com/html/?q=rust&kl=cn-zh");
    let q = duckduckgo_instant_query("x");
    assert_eq!(q[0], ("q".to_string(), "x".to_string()));
    assert_eq!(q.len(), 5);
}
