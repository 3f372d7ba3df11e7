use petool_core::html::{
    anchor_markdown, clean_html_fragment, decode_basic_html_entities, entity_code_text,
    html_to_markdown_basic, html_to_text_basic, parse_bing_html_results,
    parse_duckduckgo_html_results, parse_duckduckgo_instant_results, parse_exa_text_results,
    replace_text, unwrap_duckduckgo_redirect, InstantAnswer, RelatedTopic, TopicEntry,
};

#[test]
fn literal_replacement_is_left_to_right() {
    assert_eq!(replace_text("a&amp;b&amp;", "&amp;", "&"), "a&b&");
    assert_eq!(replace_text("aaa", "aa", "b"), "ba");
    assert_eq!(replace_text("x", "yy", "z"), "x");
}

#[test]
fn numeric_entities_decode_to_characters() {
    assert_eq!(entity_code_text("65", false), "A");
    assert_eq!(entity_code_text("41", true), "A");
    assert_eq!(entity_code_text("D800", true), " ");
    assert_eq!(entity_code_text("99999999999", false), " ");
    assert_eq!(entity_code_text("", false), " ");
}

#[test]
fn basic_entities_are_decoded_once() {
    assert_eq!(
        decode_basic_html_entities("&lt;b&gt; &#65;&#x42; &#1114112; &amp;amp;"),
        "<b> AB   &amp;"
    );
    assert_eq!(decode_basic_html_entities("&quot;x&#39;&nbsp;"), "\"x' ");
}

#[test]
fn fragments_become_text() {
    assert_eq!(clean_html_fragment("<p>Hello&nbsp;<b>world</b></p>"), "Hello world");
    assert_eq!(clean_html_fragment(""), "");
}

#[test]
fn pages_become_text() {
    let html = "<html><script>var x=1;</script><p>One</p><p>Two<br/>Three</p></html>";
    assert_eq!(html_to_text_basic(html), "One\nTwo\nThree");
}

#[test]
fn pages_become_markdown() {
    assert_eq!(anchor_markdown("https://y.com", "<i></i>"), " https://y.com");
    assert_eq!(anchor_markdown("https://x.com", "the <b>site</b>"), "[the site](https://x.com)");
    let html = "<p>See <a href=\"https://x.com\">the <b>site</b></a></p><a href='https://y.com'></a>";
    assert_eq!(html_to_markdown_basic(html), "See [the site](https://x.com)\nhttps://y.com");
}

#[test]
fn duckduckgo_redirects_are_followed() {
    assert_eq!(
        unwrap_duckduckgo_redirect("//duckduckgo.com/l/?uddg=https%3A%2F%2Fexample.com%2Fa&rut=1"),
        "https://example.com/a"
    );
    assert_eq!(unwrap_duckduckgo_redirect("https://other.com/x"), "https://other.com/x");
    assert_eq!(unwrap_duckduckgo_redirect("//x.com/p"), "https://x.com/p");
}

#[test]
fn bing_results_are_read() {
    let html = "<ol><li class=\"b_algo\"><h2><a href=\"https://a.com/?x=1&amp;y=2\">First <b>hit</b></a></h2><p>About &quot;a&quot;</p></li><li class=\"b_algo\"><h2>no link</h2></li><li class=\"b_algo\"><h2><a href=\"https://a.com/?x=1&amp;y=2\">Duplicate</a></h2></li><li class=\"b_algo\"><h2><a href=\"https://b.com\">Second</a></h2></li></ol>";
    let results = parse_bing_html_results(html, 10);
    assert_eq!(results.len(), 2);
    assert_eq!(results[0].title, "First hit");
    assert_eq!(results[0].url, "https://a.com/?x=1&y=2");
    assert_eq!(results[0].snippet, "About \"a\"");
    assert_eq!(results[1].url, "https://b.com");
    assert_eq!(results[1].snippet, "");
    assert_eq!(parse_bing_html_results(html, 1).len(), 1);
}

#[test]
fn duckduckgo_results_are_read() {
    let html = "<div class=\"result__body\"><a class=\"result__a\" href=\"//duckduckgo.com/l/?uddg=https%3A%2F%2Fex.org%2F\">Ex</a><a class=\"result__snippet\">An <b>example</b></a></div>";
    let results = parse_duckduckgo_html_results(html, 5);
    assert_eq!(results.len(), 1);
    assert_eq!(results[0].title, "Ex");
    assert_eq!(results[0].url, "https://ex.org/");
    assert_eq!(results[0].snippet, "An example");
}

#[test]
fn exa_pattern_uses_look_ahead_and_reads_nothing() {
    let text = "Title: A\r\nURL: https://a.com\r\nText: body\r\nTitle: B\r\nURL: https://b.com\r\nText: more";
    assert!(parse_exa_text_results(text, 5).is_empty());
}

#[test]
fn instant_answers_are_read() {
    let answer = InstantAnswer {
        abstract_text: Some("Rust is a language".to_string()),
        abstract_url: Some("https://rust-lang.org".to_string()),
        heading: None,
        related_topics: vec![
            RelatedTopic::Entry { text: "Cargo".to_string(), first_url: Some("https://doc.rust-lang.org/cargo".to_string()) },
            RelatedTopic::Group(vec![
                TopicEntry { text: Some("Crates".to_string()), first_url: Some("https://crates.io".to_string()) },
                TopicEntry { text: Some("No link".to_string()), first_url: None },
            ]),
            RelatedTopic::Other,
        ],
    };
    let results = parse_duckduckgo_instant_results(&answer, 10);
    let titles: Vec<&str> = results.iter().map(|r| r.title.as_str()).collect();
    assert_eq!(titles, vec!["Result", "Cargo", "Crates"]);
    assert_eq!(results[0].snippet, "Rust is a language");
    assert_eq!(results[2].snippet, "Crates");
    assert_eq!(parse_duckduckgo_instant_results(&answer, 2).len(), 2);
}
