//! The decisions of the `web_fetch` and `web_search` tools: their
//! arguments, which addresses may be fetched, when a request is tried
//! again, how a fetched page is rendered, and which search provider is
//! asked next. The requests themselves are the caller's.

use vstd::prelude::*;
use crate::text::{
    chars_of, string_of, owned, push_all, push_decimal, decimal_seq, lower_seq, lower_chars,
    contains_seq, chars_contains, take_chars, take_chars_exec, trimmed_present, trim_present,
    str_eq, unicode_lowercased, to_lowercase_text,
};
use crate::web::{SearchResult, HostAddress, forbidden_host, is_forbidden_loopback_host};
use crate::html::{html_text, html_markdown, html_to_text_basic, html_to_markdown_basic};
use crate::todo::required_message;

verus! {

pub open spec fn default_user_agent() -> Seq<char> {
    "Mozilla/5.0 (Windows NT 10.0; Win64; x64) AppleWebKit/537.36 (KHTML, like Gecko) Chrome/131.0.0.0 Safari/537.36"@
}

pub open spec fn default_accept_language() -> Seq<char> {
    "en-US,en;q=0.9,zh-CN;q=0.8,zh;q=0.7"@
}

pub open spec fn default_exa_endpoint() -> Seq<char> {
    "https://mcp.exa.ai/mcp"@
}

/// `v` kept within `lo..=hi`.
pub open spec fn clamped(v: int, lo: int, hi: int) -> int {
    if v < lo {
        lo
    } else if v > hi {
        hi
    } else {
        v
    }
}

pub(crate) fn clamp_u64(v: u64, lo: u64, hi: u64) -> (r: u64)
    requires
        lo <= hi,
    ensures
        r == clamped(v as int, lo as int, hi as int),
{
    if v < lo {
        lo
    } else if v > hi {
        hi
    } else {
        v
    }
}

/// An optional argument (trimmed, unless blank), or its default.
pub open spec fn text_or(o: Option<String>, default: Seq<char>) -> Seq<char> {
    match trimmed_present(o) {
        Some(t) => t,
        None => default,
    }
}

pub(crate) fn read_text_or(o: &Option<String>, default: &str) -> (r: String)
    ensures
        r@ == text_or(*o, default@),
{
    match trim_present(o) {
        Some(t) => t,
        None => owned(default),
    }
}

pub open spec fn number_or(o: Option<u64>, default: int) -> int {
    match o {
        Some(v) => v as int,
        None => default,
    }
}

/// The arguments of `web_fetch`, as given (strings and integers when they
/// have those types).
#[derive(Debug, Clone)]
pub struct WebFetchArgs {
    pub url: Option<String>,
    pub timeout_ms: Option<u64>,
    pub max_chars: Option<u64>,
    pub retries: Option<u64>,
    pub max_redirects: Option<u64>,
    pub format: Option<String>,
    pub user_agent: Option<String>,
    pub accept_language: Option<String>,
}

/// How `web_fetch` fetches and renders a page.
#[derive(Debug, Clone)]
pub struct WebFetchPlan {
    pub url: String,
    pub timeout_ms: u64,
    pub max_chars: usize,
    pub retries: u64,
    pub max_redirects: u64,
    pub format: String,
    pub user_agent: String,
    pub accept_language: String,
    pub accept: String,
}

/// The `Accept` header for a format.
pub open spec fn accept_for_format(format: Seq<char>) -> Seq<char> {
    if format == "html"@ {
        "text/html,application/xhtml+xml;q=0.9,*/*;q=0.1"@
    } else if format == "markdown"@ || format == "text"@ {
        "text/html,text/plain,application/json;q=0.9,*/*;q=0.1"@
    } else {
        "*/*"@
    }
}

/// The plan of a `web_fetch` call: the address (required); the timeout
/// (18 s, within 1 s..90 s), the size limit (50 000 characters, within
/// 500..500 000), the retries (1, within 0..3) and redirects (5, within
/// 0..10); the format (`auto`, in lowercase) and its `Accept` header; the
/// browser identity and languages (defaults when not given).
pub fn web_fetch_plan(args: &WebFetchArgs) -> (r: Result<WebFetchPlan, String>)
    ensures
        match trimmed_present(args.url) {
            None => r matches Err(e) && e@ == required_message("url"@),
            Some(u) => r matches Ok(p) && {
                &&& p.url@ == u
                &&& p.timeout_ms == clamped(number_or(args.timeout_ms, 18_000), 1_000, 90_000)
                &&& p.max_chars == clamped(number_or(args.max_chars, 50_000), 500, 500_000)
                &&& p.retries == clamped(number_or(args.retries, 1), 0, 3)
                &&& p.max_redirects == clamped(number_or(args.max_redirects, 5), 0, 10)
                &&& p.format@ == unicode_lowercased(text_or(args.format, "auto"@))
                &&& p.user_agent@ == text_or(args.user_agent, default_user_agent())
                &&& p.accept_language@ == text_or(args.accept_language, default_accept_language())
                &&& p.accept@ == accept_for_format(p.format@)
            },
        },
{
    let url = match &args.url {
        Some(u) => crate::todo::read_string_argument(Some(u.as_str()), "url"),
        None => crate::todo::read_string_argument(None, "url"),
    };
    let url = match url {
        Ok(u) => u,
        Err(e) => {
            return Err(e);
        },
    };
    let timeout_ms = clamp_u64(match args.timeout_ms { Some(v) => v, None => 18_000 }, 1_000, 90_000);
    let max_chars = clamp_u64(match args.max_chars { Some(v) => v, None => 50_000 }, 500, 500_000) as usize;
    let retries = clamp_u64(match args.retries { Some(v) => v, None => 1 }, 0, 3);
    let max_redirects = clamp_u64(match args.max_redirects { Some(v) => v, None => 5 }, 0, 10);
    let format_raw = read_text_or(&args.format, "auto");
    let format = to_lowercase_text(format_raw.as_str());
    let user_agent = read_text_or(&args.user_agent, "Mozilla/5.0 (Windows NT 10.0; Win64; x64) AppleWebKit/537.36 (KHTML, like Gecko) Chrome/131.0.0.0 Safari/537.36");
    let accept_language = read_text_or(&args.accept_language, "en-US,en;q=0.9,zh-CN;q=0.8,zh;q=0.7");
    let accept = if str_eq(format.as_str(), "html") {
        owned("text/html,application/xhtml+xml;q=0.9,*/*;q=0.1")
    } else if str_eq(format.as_str(), "markdown") || str_eq(format.as_str(), "text") {
        owned("text/html,text/plain,application/json;q=0.9,*/*;q=0.1")
    } else {
        owned("*/*")
    };
    Ok(WebFetchPlan { url, timeout_ms, max_chars, retries, max_redirects, format, user_agent, accept_language, accept })
}

/// How many times a page is requested at most: the retries plus one,
/// within 1..=4.
pub fn fetch_attempt_limit(retries: u64) -> (r: u64)
    ensures
        r == clamped(if retries == u64::MAX { u64::MAX as int } else { retries + 1 }, 1, 4),
{
    let n = if retries == u64::MAX { u64::MAX } else { retries + 1 };
    clamp_u64(n, 1, 4)
}

/// Only `http` and `https` addresses of other machines may be fetched.
/// `host` and `address` are the address's host and, when it is an IP
/// address, that address.
pub fn check_fetch_target(scheme: &str, host: Option<&str>, address: Option<HostAddress>) -> (r: Result<(), String>)
    ensures
        !(scheme@ == "http"@ || scheme@ == "https"@) ==> (r matches Err(e) && e@ == "Only http/https URLs are supported"@),
        (scheme@ == "http"@ || scheme@ == "https"@) ==> match r {
            Ok(()) => !forbidden_host(crate::todo::str_opt_view(host), address),
            Err(e) => forbidden_host(crate::todo::str_opt_view(host), address) && e@ == "Local/private hosts are not allowed"@,
        },
{
    if !(str_eq(scheme, "http") || str_eq(scheme, "https")) {
        return Err(owned("Only http/https URLs are supported"));
    }
    if is_forbidden_loopback_host(host, address) {
        return Err(owned("Local/private hosts are not allowed"));
    }
    Ok(())
}

/// What sending a request gave.
#[derive(Debug, Clone)]
pub enum SendOutcome {
    /// No answer: the error.
    Failed(String),
    /// An answer: its status, the address it came from, and its body.
    Answered { status: u16, final_url: String, body: String },
}

/// What happens after a request.
#[derive(Debug, Clone)]
pub enum FetchStep {
    /// The answer is the page.
    Done,
    /// Wait `delay_ms`, then try again; `last_error` is reported if no
    /// attempt succeeds.
    Retry { delay_ms: u64, last_error: String },
    /// Give up with this error.
    Fail(String),
}

/// The error of an answer that is not a success: its status and address,
/// and the first 240 characters of its body when it has one.
pub open spec fn http_error_text(status: u16, final_url: Seq<char>, body: Seq<char>) -> Seq<char> {
    let short = take_chars(body, 240);
    "HTTP "@ + decimal_seq(status as nat) + " from "@ + final_url + if short.len() == 0 {
        Seq::empty()
    } else {
        ": "@ + short
    }
}

/// After attempt `attempt` of `max_attempts`: a success (2xx) is the page;
/// a failed request, a 429 or a 5xx answer is tried again after
/// `250 * attempt` ms while attempts remain; anything else fails.
pub fn fetch_step(attempt: u64, max_attempts: u64, outcome: &SendOutcome) -> (r: FetchStep)
    requires
        1 <= attempt <= max_attempts <= 4,
    ensures
        match outcome {
            SendOutcome::Failed(e) => if attempt < max_attempts {
                r matches FetchStep::Retry { delay_ms, last_error } && delay_ms == 250 * attempt && last_error@ == e@
            } else {
                r matches FetchStep::Fail(m) && m@ == e@
            },
            SendOutcome::Answered { status, final_url, body } => if 200 <= *status <= 299 {
                r is Done
            } else if (*status == 429 || 500 <= *status <= 599) && attempt < max_attempts {
                r matches FetchStep::Retry { delay_ms, last_error } && delay_ms == 250 * attempt
                    && last_error@ == http_error_text(*status, final_url@, body@)
            } else {
                r matches FetchStep::Fail(m) && m@ == http_error_text(*status, final_url@, body@)
            },
        },
{
    match outcome {
        SendOutcome::Failed(e) => {
            if attempt < max_attempts {
                FetchStep::Retry { delay_ms: 250 * attempt, last_error: e.clone() }
            } else {
                FetchStep::Fail(e.clone())
            }
        },
        SendOutcome::Answered { status, final_url, body } => {
            if 200 <= *status && *status <= 299 {
                return FetchStep::Done;
            }
            let mut msg = chars_of("HTTP ");
            push_decimal(&mut msg, *status as u64);
            let from = chars_of(" from ");
            push_all(&mut msg, from.as_slice());
            let u = chars_of(final_url.as_str());
            push_all(&mut msg, u.as_slice());
            let bc = chars_of(body.as_str());
            let short = take_chars_exec(bc.as_slice(), 240);
            if short.len() > 0 {
                let sep = chars_of(": ");
                push_all(&mut msg, sep.as_slice());
                push_all(&mut msg, short.as_slice());
            }
            let text = string_of(msg.as_slice());
            proof {
                if short@.len() == 0 {
                    assert(text@ =~= http_error_text(*status, final_url@, body@));
                } else {
                    assert(text@ =~= http_error_text(*status, final_url@, body@));
                }
            }
            if (*status == 429 || (500 <= *status && *status <= 599)) && attempt < max_attempts {
                FetchStep::Retry { delay_ms: 250 * attempt, last_error: text }
            } else {
                FetchStep::Fail(text)
            }
        },
    }
}

/// A JSON text pretty-printed by `serde_json`, or the text itself when it
/// is not JSON.
pub uninterp spec fn json_pretty_text(text: Seq<char>) -> Seq<char>;

/// Parses a text as JSON with `serde_json::from_str` and prints it with
/// `serde_json::to_string_pretty`; a text that does not parse (or does not
/// print) is kept. The result depends on the text alone: it is named
/// `json_pretty_text`.
#[verifier::external_body]
fn json_pretty_or_same(text: &str) -> (r: String)
    ensures
        r@ == json_pretty_text(text@),
{
    match serde_json::from_str::<serde_json::Value>(text) {
        Ok(value) => serde_json::to_string_pretty(&value).unwrap_or_else(|_| text.to_string()),
        Err(_) => text.to_string(),
    }
}

/// How a fetched page is shown, and by which extractor: `html` keeps the
/// page; `markdown` turns HTML into Markdown; `text` turns HTML into text
/// and pretty-prints JSON; any other format turns HTML into text. What
/// cannot be turned is kept (`raw`). The content type decides what the
/// page is (`text/html`, `application/json`, in any ASCII case).
pub open spec fn rendered_page(format: Seq<char>, content_type: Option<Seq<char>>, raw: Seq<char>) -> (Seq<char>, Seq<char>) {
    let t = lower_seq(match content_type {
        Some(c) => c,
        None => Seq::empty(),
    });
    let is_html = contains_seq(t, "text/html"@);
    let is_json = contains_seq(t, "application/json"@);
    if format == "html"@ {
        (raw, "raw_html"@)
    } else if format == "markdown"@ {
        if is_html {
            (html_markdown(raw), "html_to_markdown"@)
        } else {
            (raw, "raw"@)
        }
    } else if format == "text"@ {
        if is_html {
            (html_text(raw), "html_to_text"@)
        } else if is_json {
            (json_pretty_text(raw), "json_to_text"@)
        } else {
            (raw, "raw"@)
        }
    } else if is_html {
        (html_text(raw), "html_to_text"@)
    } else {
        (raw, "raw"@)
    }
}

/// Renders a fetched page (see `rendered_page`).
pub fn render_fetched(format: &str, content_type: Option<&str>, raw: String) -> (r: (String, String))
    ensures
        (r.0@, r.1@) == rendered_page(format@, crate::todo::str_opt_view(content_type), raw@),
{
    let tc = match content_type {
        Some(c) => chars_of(c),
        None => Vec::new(),
    };
    let t = lower_chars(tc.as_slice());
    let html = chars_of("text/html");
    let json = chars_of("application/json");
    let is_html = chars_contains(t.as_slice(), html.as_slice());
    let is_json = chars_contains(t.as_slice(), json.as_slice());
    if str_eq(format, "html") {
        (raw, owned("raw_html"))
    } else if str_eq(format, "markdown") {
        if is_html {
            (html_to_markdown_basic(raw.as_str()), owned("html_to_markdown"))
        } else {
            (raw, owned("raw"))
        }
    } else if str_eq(format, "text") {
        if is_html {
            (html_to_text_basic(raw.as_str()), owned("html_to_text"))
        } else if is_json {
            (json_pretty_or_same(raw.as_str()), owned("json_to_text"))
        } else {
            (raw, owned("raw"))
        }
    } else if is_html {
        (html_to_text_basic(raw.as_str()), owned("html_to_text"))
    } else {
        (raw, owned("raw"))
    }
}

/// The arguments of `web_search`, as given.
#[derive(Debug, Clone)]
pub struct WebSearchArgs {
    pub query: Option<String>,
    pub max_results: Option<u64>,
    pub timeout_ms: Option<u64>,
    pub provider: Option<String>,
    pub search_lang: Option<String>,
    pub ui_lang: Option<String>,
    pub country: Option<String>,
    pub user_agent: Option<String>,
    pub accept_language: Option<String>,
    pub exa_url: Option<String>,
}

/// How `web_search` searches.
#[derive(Debug, Clone)]
pub struct WebSearchPlan {
    pub query: String,
    pub max_results: usize,
    pub timeout_ms: u64,
    /// The providers to ask, in order.
    pub providers: Vec<String>,
    pub search_lang: String,
    pub ui_lang: String,
    pub country: String,
    pub user_agent: String,
    pub accept_language: String,
    pub exa_url: String,
}

/// The providers a provider choice asks, in order.
pub open spec fn providers_for(choice: Seq<char>) -> Option<Seq<Seq<char>>> {
    if choice == "auto"@ {
        Some(seq!["exa"@, "bing"@, "duckduckgo"@, "duckduckgo_instant"@])
    } else if choice == "exa"@ {
        Some(seq!["exa"@])
    } else if choice == "bing"@ {
        Some(seq!["bing"@])
    } else if choice == "duckduckgo"@ {
        Some(seq!["duckduckgo"@, "duckduckgo_instant"@])
    } else {
        None
    }
}

pub open spec fn bad_provider_message() -> Seq<char> {
    "provider must be one of: auto|exa|bing|duckduckgo"@
}

/// The plan of a `web_search` call: the query (required); up to 8 results
/// (within 1..25); an 18 s timeout (within 1 s..90 s); the providers of
/// the choice (`auto`, in lowercase; an unknown choice is an error); the
/// languages and country (`zh-CN`, `zh-CN`, `CN`), the browser identity
/// and languages, and the Exa endpoint (defaults when not given).
pub fn web_search_plan(args: &WebSearchArgs) -> (r: Result<WebSearchPlan, String>)
    ensures
        match trimmed_present(args.query) {
            None => r matches Err(e) && e@ == required_message("query"@),
            Some(q) => match providers_for(unicode_lowercased(text_or(args.provider, "auto"@))) {
                None => r matches Err(e) && e@ == bad_provider_message(),
                Some(ps) => r matches Ok(p) && {
                    &&& p.query@ == q
                    &&& p.max_results == clamped(number_or(args.max_results, 8), 1, 25)
                    &&& p.timeout_ms == clamped(number_or(args.timeout_ms, 18_000), 1_000, 90_000)
                    &&& crate::text::string_views(p.providers@) == ps
                    &&& p.search_lang@ == text_or(args.search_lang, "zh-CN"@)
                    &&& p.ui_lang@ == text_or(args.ui_lang, "zh-CN"@)
                    &&& p.country@ == text_or(args.country, "CN"@)
                    &&& p.user_agent@ == text_or(args.user_agent, default_user_agent())
                    &&& p.accept_language@ == text_or(args.accept_language, default_accept_language())
                    &&& p.exa_url@ == text_or(args.exa_url, default_exa_endpoint())
                },
            },
        },
{
    let query = match &args.query {
        Some(q) => crate::todo::read_string_argument(Some(q.as_str()), "query"),
        None => crate::todo::read_string_argument(None, "query"),
    };
    let query = match query {
        Ok(q) => q,
        Err(e) => {
            return Err(e);
        },
    };
    let max_results = clamp_u64(match args.max_results { Some(v) => v, None => 8 }, 1, 25) as usize;
    let timeout_ms = clamp_u64(match args.timeout_ms { Some(v) => v, None => 18_000 }, 1_000, 90_000);
    let choice_raw = read_text_or(&args.provider, "auto");
    let choice = to_lowercase_text(choice_raw.as_str());
    let providers: Vec<String> = if str_eq(choice.as_str(), "auto") {
        vec![owned("exa"), owned("bing"), owned("duckduckgo"), owned("duckduckgo_instant")]
    } else if str_eq(choice.as_str(), "exa") {
        vec![owned("exa")]
    } else if str_eq(choice.as_str(), "bing") {
        vec![owned("bing")]
    } else if str_eq(choice.as_str(), "duckduckgo") {
        vec![owned("duckduckgo"), owned("duckduckgo_instant")]
    } else {
        return Err(owned("provider must be one of: auto|exa|bing|duckduckgo"));
    };
    assert(crate::text::string_views(providers@) =~= providers_for(choice@)->0);
    Ok(WebSearchPlan {
        query,
        max_results,
        timeout_ms,
        providers,
        search_lang: read_text_or(&args.search_lang, "zh-CN"),
        ui_lang: read_text_or(&args.ui_lang, "zh-CN"),
        country: read_text_or(&args.country, "CN"),
        user_agent: read_text_or(&args.user_agent, "Mozilla/5.0 (Windows NT 10.0; Win64; x64) AppleWebKit/537.36 (KHTML, like Gecko) Chrome/131.0.0.0 Safari/537.36"),
        accept_language: read_text_or(&args.accept_language, "en-US,en;q=0.9,zh-CN;q=0.8,zh;q=0.7"),
        exa_url: read_text_or(&args.exa_url, "https://mcp.exa.ai/mcp"),
    })
}

/// How a provider's attempt went.
#[derive(Debug, Clone)]
pub enum AttemptStatus {
    /// It answered with this many results.
    Answered(usize),
    /// It failed with this error.
    Failed(String),
}

/// One provider's attempt.
#[derive(Debug, Clone)]
pub struct SearchAttempt {
    pub provider: String,
    pub status: AttemptStatus,
}

/// A search in progress: the providers are asked in order until one gives
/// results.
#[derive(Debug, Clone)]
pub struct WebSearchRun {
    pub providers: Vec<String>,
    /// How many providers were asked.
    pub asked: usize,
    pub attempts: Vec<SearchAttempt>,
    /// The results of the provider that gave some.
    pub results: Vec<SearchResult>,
    /// The provider that gave results.
    pub provider_used: Option<String>,
}

impl WebSearchRun {
    /// Whether the run is consistent: one attempt per provider asked, and
    /// results only from the provider used.
    pub open spec fn wf(&self) -> bool {
        &&& self.asked <= self.providers@.len()
        &&& self.attempts@.len() == self.asked
        &&& forall|i: int| 0 <= i < self.asked ==> #[trigger] self.attempts@[i].provider@ == self.providers@[i]@
        &&& (self.provider_used is None ==> self.results@.len() == 0)
    }

    /// A search that has asked no provider yet.
    pub fn new(providers: Vec<String>) -> (r: Self)
        ensures
            r.wf(),
            r.providers == providers,
            r.asked == 0,
            r.provider_used is None,
    {
        WebSearchRun { providers, asked: 0, attempts: Vec::new(), results: Vec::new(), provider_used: None }
    }

    /// The provider to ask next: none once one gave results or all were
    /// asked.
    pub fn next_provider(&self) -> (r: Option<String>)
        requires
            self.wf(),
        ensures
            self.provider_used is Some || self.asked >= self.providers@.len() ==> r is None,
            self.provider_used is None && self.asked < self.providers@.len() ==> (r matches Some(p) && p@ == self.providers@[self.asked as int]@),
    {
        if self.provider_used.is_some() || self.asked >= self.providers.len() {
            return None;
        }
        Some(self.providers[self.asked].clone())
    }

    /// Records what the provider asked next gave: its attempt is added;
    /// results end the search with that provider; no results or an error
    /// leave the next provider to be asked.
    pub fn record(&mut self, outcome: Result<Vec<SearchResult>, String>)
        requires
            old(self).wf(),
            old(self).provider_used is None,
            old(self).asked < old(self).providers@.len(),
        ensures
            final(self).wf(),
            final(self).providers == old(self).providers,
            final(self).asked == old(self).asked + 1,
            final(self).attempts@.drop_last() == old(self).attempts@,
            match outcome {
                Ok(rs) => (final(self).attempts@.last().status matches AttemptStatus::Answered(n) && n == rs@.len())
                    && if rs@.len() > 0 {
                        final(self).provider_used matches Some(p) && p@ == old(self).providers@[old(self).asked as int]@
                            && final(self).results@ == rs@
                    } else {
                        final(self).provider_used is None
                    },
                Err(e) => (final(self).attempts@.last().status matches AttemptStatus::Failed(m) && m@ == e@)
                    && final(self).provider_used is None,
            },
    {
        let count = self.providers.len();
        let provider = self.providers[self.asked].clone();
        let next = self.asked + 1;
        let ghost before = self.attempts@;
        match outcome {
            Ok(rs) => {
                self.attempts.push(SearchAttempt { provider: provider.clone(), status: AttemptStatus::Answered(rs.len()) });
                if rs.len() > 0 {
                    self.results = rs;
                    self.provider_used = Some(provider);
                }
            },
            Err(e) => {
                self.attempts.push(SearchAttempt { provider, status: AttemptStatus::Failed(e) });
            },
        }
        self.asked = next;
        assert(self.attempts@.drop_last() =~= before);
    }
}


/// The data of a line of Exa's event-stream answer: what follows `data: `,
/// unless that is blank or `[DONE]`.
pub open spec fn exa_line_payload(line: Seq<char>) -> Option<Seq<char>> {
    if crate::text::starts_with(line, "data: "@) {
        let p = line.subrange(6, line.len() as int);
        if crate::text::trim_seq(p).len() == 0 || crate::text::trim_seq(p) == "[DONE]"@ {
            None
        } else {
            Some(p)
        }
    } else {
        None
    }
}

/// The data of each line that carries some, in order.
pub open spec fn exa_payloads(lines: Seq<Seq<char>>) -> Seq<Seq<char>>
    decreases lines.len(),
{
    if lines.len() == 0 {
        Seq::empty()
    } else {
        match exa_line_payload(lines.last()) {
            Some(p) => exa_payloads(lines.drop_last()).push(p),
            None => exa_payloads(lines.drop_last()),
        }
    }
}

/// The `type` and `text` (when strings) of the items of the
/// `/result/content` array of a JSON text, as `serde_json` reads it; `None`
/// when the text is not JSON or has no such array.
pub uninterp spec fn result_content_items(payload: Seq<char>) -> Option<Seq<(Option<Seq<char>>, Option<Seq<char>>)>>;

/// Reads a JSON text with `serde_json::from_str` and gives the `type` and
/// `text` of each item of its `/result/content` array (`Value::pointer`).
/// The result depends on the text alone: it is named
/// `result_content_items`.
#[verifier::external_body]
fn json_result_content_items(payload: &str) -> (r: Option<Vec<(Option<String>, Option<String>)>>)
    ensures
        match r {
            Some(v) => result_content_items(payload@) == Some(v@.map_values(
                |x: (Option<String>, Option<String>)| (crate::text::opt_view(x.0), crate::text::opt_view(x.1)))),
            None => result_content_items(payload@) is None,
        },
{
    let value = serde_json::from_str::<serde_json::Value>(payload).ok()?;
    let items = value.pointer("/result/content")?.as_array()?;
    Some(items.iter().map(|item| (
        item.get("type").and_then(serde_json::Value::as_str).map(|t| t.to_string()),
        item.get("text").and_then(serde_json::Value::as_str).map(|t| t.to_string()),
    )).collect())
}

/// The texts of content items of type `text` that are not blank, in order.
pub open spec fn item_texts(items: Seq<(Option<Seq<char>>, Option<Seq<char>>)>) -> Seq<Seq<char>>
    decreases items.len(),
{
    if items.len() == 0 {
        Seq::empty()
    } else {
        let rest = item_texts(items.drop_last());
        match items.last() {
            (Some(k), Some(t)) => if k == "text"@ && crate::text::trim_seq(t).len() > 0 { rest.push(t) } else { rest },
            _ => rest,
        }
    }
}

/// The texts of all the payloads, in order.
pub open spec fn payload_texts(payloads: Seq<Seq<char>>) -> Seq<Seq<char>>
    decreases payloads.len(),
{
    if payloads.len() == 0 {
        Seq::empty()
    } else {
        payload_texts(payloads.drop_last()) + match result_content_items(payloads.last()) {
            Some(items) => item_texts(items),
            None => Seq::empty(),
        }
    }
}

/// The text of Exa's answer: the texts of its content items, one per line.
pub open spec fn exa_merged_text(response: Seq<char>) -> Seq<char> {
    crate::text::join_seq(payload_texts(exa_payloads(crate::text::lines_seq(response))), "\n"@)
}

fn item_texts_exec(items: &Vec<(Option<String>, Option<String>)>, out: &mut Vec<Vec<char>>)
    ensures
        crate::text::views(final(out)@) == crate::text::views(old(out)@) + item_texts(items@.map_values(
            |x: (Option<String>, Option<String>)| (crate::text::opt_view(x.0), crate::text::opt_view(x.1)))),
{
    let ghost m = items@.map_values(|x: (Option<String>, Option<String>)| (crate::text::opt_view(x.0), crate::text::opt_view(x.1)));
    let ghost start = crate::text::views(out@);
    let mut i: usize = 0;
    while i < items.len()
        invariant
            i <= items@.len(),
            m == items@.map_values(|x: (Option<String>, Option<String>)| (crate::text::opt_view(x.0), crate::text::opt_view(x.1))),
            crate::text::views(out@) == start + item_texts(m.take(i as int)),
        decreases items@.len() - i,
    {
        proof {
            assert(m.take(i + 1).drop_last() =~= m.take(i as int));
            assert(m.take(i + 1).last() == m[i as int]);
        }
        let ghost before = crate::text::views(out@);
        match (&items[i].0, &items[i].1) {
            (Some(k), Some(t)) => {
                if str_eq(k.as_str(), "text") && !crate::text::blank_chars(chars_of(t.as_str()).as_slice()) {
                    out.push(chars_of(t.as_str()));
                    assert(crate::text::views(out@) =~= before.push(t@));
                }
            },
            _ => {},
        }
        i += 1;
    }
    assert(m.take(items@.len() as int) =~= m);
}

/// The text of Exa's event-stream answer (see `exa_merged_text`).
pub fn exa_merged_text_of(response: &str) -> (r: String)
    ensures
        r@ == exa_merged_text(response@),
{
    let lines = crate::text::lines_of(chars_of(response).as_slice());
    let ghost ls = crate::text::lines_seq(response@);
    assert(crate::text::views(lines@) =~= ls);
    let mut texts: Vec<Vec<char>> = Vec::new();
    let ghost mut payloads: Seq<Seq<char>> = Seq::empty();
    let prefix = chars_of("data: ");
    let done = chars_of("[DONE]");
    let mut i: usize = 0;
    while i < lines.len()
        invariant
            i <= lines@.len(),
            crate::text::views(lines@) == ls,
            prefix@ == "data: "@,
            done@ == "[DONE]"@,
            payloads == exa_payloads(ls.take(i as int)),
            crate::text::views(texts@) == payload_texts(payloads),
        decreases lines@.len() - i,
    {
        proof {
            assert(ls.take(i + 1).drop_last() =~= ls.take(i as int));
            assert(ls.take(i + 1).last() == ls[i as int]);
            reveal_strlit("data: ");
        }
        let line = &lines[i];
        if crate::text::chars_starts_with(line.as_slice(), prefix.as_slice()) {
            let p = crate::text::slice_chars(line.as_slice(), 6, line.len());
            let t = crate::text::trim_chars(p.as_slice());
            if t.len() > 0 && !crate::text::chars_eq(t.as_slice(), done.as_slice()) {
                let payload = string_of(p.as_slice());
                let ghost before = crate::text::views(texts@);
                match json_result_content_items(payload.as_str()) {
                    Some(items) => item_texts_exec(&items, &mut texts),
                    None => {},
                }
                proof {
                    payloads = payloads.push(p@);
                    assert(payloads.drop_last() =~= exa_payloads(ls.take(i as int)));
                }
                assert(crate::text::views(texts@) =~= payload_texts(payloads));
            }
        }
        i += 1;
    }
    assert(ls.take(lines@.len() as int) =~= ls);
    let nl = chars_of("\n");
    let joined = crate::text::join_chars(&texts, nl.as_slice());
    string_of(joined.as_slice())
}

/// The results of an Exa search: those read from its text (see
/// `parse_exa_text_results`); when none is and the text is not blank, one
/// summary result titled `Exa search summary: <query>`, at
/// `https://mcp.exa.ai/`, with the text's first 500 characters.
pub fn exa_search_results(query: &str, response: &str, max_results: usize) -> (r: Vec<SearchResult>)
    ensures
        ({
            let merged = exa_merged_text(response@);
            let parsed = crate::html::offer_all(
                Seq::empty(),
                crate::html::regex_capture_groups(crate::html::exa_result_pattern(), crate::html::replaced(merged, "\r\n"@, "\n"@))
                    .map_values(|m: Seq<Option<Seq<char>>>| crate::html::exa_candidate(m)),
                max_results as nat,
            );
            crate::web::results_view(r@) == if parsed.len() == 0 && crate::text::trim_seq(merged).len() > 0 {
                seq![("Exa search summary: "@ + query@, "https://mcp.exa.ai/"@, take_chars(merged, 500))]
            } else {
                parsed
            }
        }),
{
    let merged = exa_merged_text_of(response);
    let parsed = crate::html::parse_exa_text_results(merged.as_str(), max_results);
    let mc = chars_of(merged.as_str());
    if parsed.len() == 0 && !crate::text::blank_chars(mc.as_slice()) {
        let mut title = chars_of("Exa search summary: ");
        push_all(&mut title, chars_of(query).as_slice());
        let snippet = take_chars_exec(mc.as_slice(), 500);
        let mut out: Vec<SearchResult> = Vec::new();
        out.push(SearchResult {
            title: string_of(title.as_slice()),
            url: owned("https://mcp.exa.ai/"),
            snippet: string_of(snippet.as_slice()),
        });
        assert(crate::web::results_view(out@) =~= seq![("Exa search summary: "@ + query@, "https://mcp.exa.ai/"@, take_chars(merged@, 500))]);
        return out;
    }
    parsed
}

/// The error of an Exa request the service refused: its status and the
/// first 240 characters of its answer.
pub fn exa_request_error(status: u16, detail: &str) -> (r: String)
    ensures
        r@ == "Exa MCP request failed ("@ + decimal_seq(status as nat) + "): "@ + take_chars(detail@, 240),
{
    let mut out = chars_of("Exa MCP request failed (");
    push_decimal(&mut out, status as u64);
    push_all(&mut out, chars_of("): ").as_slice());
    push_all(&mut out, take_chars_exec(chars_of(detail).as_slice(), 240).as_slice());
    string_of(out.as_slice())
}

/// The address `url::Url::parse_with_params` makes of a base and query
/// pairs (as `Url::to_string` writes it), or its parse error's text.
pub uninterp spec fn url_with_query(base: Seq<char>, pairs: Seq<(Seq<char>, Seq<char>)>) -> Result<Seq<char>, Seq<char>>;

/// Calls `url::Url::parse_with_params` and writes the address with
/// `to_string`; the outcome depends on the base and the pairs alone, and is
/// named `url_with_query`.
#[verifier::external_body]
fn parse_with_params(base: &str, pairs: &Vec<(String, String)>) -> (r: Result<String, String>)
    ensures
        match r {
            Ok(u) => url_with_query(base@, crate::html::pairs_view(pairs@)) == Ok::<Seq<char>, Seq<char>>(u@),
            Err(e) => url_with_query(base@, crate::html::pairs_view(pairs@)) == Err::<Seq<char>, Seq<char>>(e@),
        },
{
    url::Url::parse_with_params(base, pairs.iter()).map(|u| u.to_string()).map_err(|e| e.to_string())
}

fn pair(k: &str, v: &str) -> (r: (String, String))
    ensures
        r.0@ == k@ && r.1@ == v@,
{
    (owned(k), owned(v))
}

/// The address of a Bing search: `https://www.bing.com/search` with the
/// query, the interface language and the country as `q`, `setlang` and `cc`.
pub fn bing_search_url(query: &str, ui_lang: &str, country: &str) -> (r: Result<String, String>)
    ensures
        match r {
            Ok(u) => url_with_query("https://www.bing.com/search"@, seq![("q"@, query@), ("setlang"@, ui_lang@), ("cc"@, country@)]) == Ok::<Seq<char>, Seq<char>>(u@),
            Err(e) => url_with_query("https://www.bing.com/search"@, seq![("q"@, query@), ("setlang"@, ui_lang@), ("cc"@, country@)]) == Err::<Seq<char>, Seq<char>>(e@),
        },
{
    let mut pairs: Vec<(String, String)> = Vec::new();
    pairs.push(pair("q", query));
    pairs.push(pair("setlang", ui_lang));
    pairs.push(pair("cc", country));
    assert(crate::html::pairs_view(pairs@) =~= seq![("q"@, query@), ("setlang"@, ui_lang@), ("cc"@, country@)]);
    parse_with_params("https://www.bing.com/search", &pairs)
}

/// The address of a DuckDuckGo HTML search: `https://duckduckgo.com/html/`
/// with the query and the search language as `q` and `kl`.
pub fn duckduckgo_search_url(query: &str, search_lang: &str) -> (r: Result<String, String>)
    ensures
        match r {
            Ok(u) => url_with_query("https://duckduckgo.com/html/"@, seq![("q"@, query@), ("kl"@, search_lang@)]) == Ok::<Seq<char>, Seq<char>>(u@),
            Err(e) => url_with_query("https://duckduckgo.com/html/"@, seq![("q"@, query@), ("kl"@, search_lang@)]) == Err::<Seq<char>, Seq<char>>(e@),
        },
{
    let mut pairs: Vec<(String, String)> = Vec::new();
    pairs.push(pair("q", query));
    pairs.push(pair("kl", search_lang));
    assert(crate::html::pairs_view(pairs@) =~= seq![("q"@, query@), ("kl"@, search_lang@)]);
    parse_with_params("https://duckduckgo.com/html/", &pairs)
}

/// The query of a DuckDuckGo instant-answer request, in order.
pub fn duckduckgo_instant_query(query: &str) -> (r: Vec<(String, String)>)
    ensures
        crate::html::pairs_view(r@) == seq![("q"@, query@), ("format"@, "json"@), ("no_redirect"@, "1"@),
            ("no_html"@, "1"@), ("skip_disambig"@, "1"@)],
{
    let mut pairs: Vec<(String, String)> = Vec::new();
    pairs.push(pair("q", query));
    pairs.push(pair("format", "json"));
    pairs.push(pair("no_redirect", "1"));
    pairs.push(pair("no_html", "1"));
    pairs.push(pair("skip_disambig", "1"));
    assert(crate::html::pairs_view(pairs@) =~= seq![("q"@, query@), ("format"@, "json"@), ("no_redirect"@, "1"@),
        ("no_html"@, "1"@), ("skip_disambig"@, "1"@)]);
    pairs
}
} // verus!
