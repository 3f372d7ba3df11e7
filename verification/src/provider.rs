//! Which endpoint and key the chat uses for a model, and where the skill
//! discovery services' settings come from.

use vstd::prelude::*;
use crate::text::{
    chars_of, string_of, owned, push_all, trim_seq, lower_seq, trim_chars, lower_chars, starts_with,
    chars_starts_with, opt_view, trimmed_present, trim_present,
};
use crate::memory::{first_non_blank, first_non_empty};
use crate::config::Config;
use crate::html::{regex_first_groups, regex_captures_first};

verus! {

/// The provider of a chat model.
#[derive(Debug, Clone, Copy, PartialEq, Eq, Structural)]
pub enum TextModelProvider {
    Glm,
    Doubao,
    MiniMax,
}

/// The provider of a chat model, by the prefix of its trimmed, ASCII
/// lowercased name: `minimax-` is MiniMax, `doubao-` Doubao, anything else
/// GLM.
pub open spec fn chat_model_provider(model: Seq<char>) -> TextModelProvider {
    let n = lower_seq(trim_seq(model));
    if starts_with(n, "minimax-"@) {
        TextModelProvider::MiniMax
    } else if starts_with(n, "doubao-"@) {
        TextModelProvider::Doubao
    } else {
        TextModelProvider::Glm
    }
}

/// The provider of a chat model (see `chat_model_provider`).
pub fn detect_text_model_provider(model: &str) -> (r: TextModelProvider)
    ensures
        r == chat_model_provider(model@),
{
    let cs = chars_of(model);
    let t = trim_chars(cs.as_slice());
    let n = lower_chars(t.as_slice());
    let minimax = chars_of("minimax-");
    let doubao = chars_of("doubao-");
    if chars_starts_with(n.as_slice(), minimax.as_slice()) {
        TextModelProvider::MiniMax
    } else if chars_starts_with(n.as_slice(), doubao.as_slice()) {
        TextModelProvider::Doubao
    } else {
        TextModelProvider::Glm
    }
}

/// An environment variable's value, trimmed, unless it is unset or blank.
pub fn env_value(raw: Option<String>) -> (r: Option<String>)
    ensures
        opt_view(r) == trimmed_present(raw),
{
    trim_present(&raw)
}

/// The environment variables that hold API keys, as read (unset ones are
/// `None`).
#[derive(Debug, Clone)]
pub struct ProviderEnv {
    pub glm_api_key: Option<String>,
    pub openai_api_key: Option<String>,
    pub ark_api_key: Option<String>,
    pub doubao_api_key: Option<String>,
    pub minimax_api_key: Option<String>,
    pub anthropic_api_key: Option<String>,
}

/// An API key and the base address to send it to.
#[derive(Debug, Clone)]
pub struct LlmEndpoint {
    pub api_key: String,
    pub api_base: String,
}

pub open spec fn glm_api_base() -> Seq<char> {
    "https://open.bigmodel.cn/api/paas/v4"@
}

pub open spec fn ark_api_base() -> Seq<char> {
    "https://ark.cn-beijing.volces.com/api/v3"@
}

pub open spec fn minimax_api_base() -> Seq<char> {
    "https://api.minimaxi.com/v1"@
}

/// The candidate keys of each provider, in the order they are tried: the
/// setting, then the environment (each variable trimmed first).
pub open spec fn key_candidates(config: Config, env: ProviderEnv, p: TextModelProvider) -> Seq<Option<Seq<char>>> {
    match p {
        TextModelProvider::Glm => seq![opt_view(config.api_key), trimmed_present(env.glm_api_key), trimmed_present(env.openai_api_key)],
        TextModelProvider::Doubao => seq![
            opt_view(config.ark_api_key),
            trimmed_present(env.ark_api_key),
            trimmed_present(env.doubao_api_key),
            opt_view(config.api_key),
        ],
        TextModelProvider::MiniMax => seq![
            opt_view(config.minimax_api_key),
            trimmed_present(env.minimax_api_key),
            trimmed_present(env.openai_api_key),
            trimmed_present(env.anthropic_api_key),
        ],
    }
}

/// The first candidate that is set and not blank, untrimmed.
pub open spec fn first_candidate(c: Seq<Option<Seq<char>>>) -> Option<Seq<char>>
    decreases c.len(),
{
    if c.len() == 0 {
        None
    } else {
        match c[0] {
            Some(v) => if trim_seq(v).len() > 0 {
                Some(v)
            } else {
                first_candidate(c.drop_first())
            },
            None => first_candidate(c.drop_first()),
        }
    }
}

pub open spec fn missing_key_message(p: TextModelProvider) -> Seq<char> {
    match p {
        TextModelProvider::Glm => "请先登录账号，或在设置中填写 GLM API Key"@,
        TextModelProvider::Doubao => "请先登录账号，或在设置中填写 Doubao API Key"@,
        TextModelProvider::MiniMax => "请先登录账号，或在设置中填写 MiniMax API Key"@,
    }
}

pub open spec fn provider_api_base(p: TextModelProvider) -> Seq<char> {
    match p {
        TextModelProvider::Glm => glm_api_base(),
        TextModelProvider::Doubao => ark_api_base(),
        TextModelProvider::MiniMax => minimax_api_base(),
    }
}

/// A text without the `c`s at its end (`str::trim_end_matches`).
pub open spec fn trim_end_char(s: Seq<char>, c: char) -> Seq<char> {
    s.take(s.len() - crate::text::char_suffix_len(s, c))
}

/// The proxy address of the account service: its base (or
/// `http://localhost:8000`) without trailing slashes, then `/v1`.
pub open spec fn proxy_base(petool_api_base: Option<Seq<char>>) -> Seq<char> {
    let base = match petool_api_base {
        Some(b) => b,
        None => "http://localhost:8000"@,
    };
    trim_end_char(base, '/') + "/v1"@
}

proof fn lemma_first_candidate(values: Seq<Option<String>>)
    ensures
        first_non_blank(values) == first_candidate(values.map_values(|o: Option<String>| opt_view(o))),
    decreases values.len(),
{
    if values.len() > 0 {
        lemma_first_candidate(values.drop_first());
        assert(values.drop_first().map_values(|o: Option<String>| opt_view(o))
            =~= values.map_values(|o: Option<String>| opt_view(o)).drop_first());
    }
}

/// The characters of a text without the `c`s at its end.
fn trim_end_chars(s: &[char], c: char) -> (r: Vec<char>)
    ensures
        r@ == trim_end_char(s@, c),
{
    let mut n: usize = s.len();
    assert(s@.take(n as int) =~= s@);
    while n > 0 && s[n - 1] == c
        invariant
            n <= s.len(),
            crate::text::char_suffix_len(s@, c) == (s.len() - n) + crate::text::char_suffix_len(s@.take(n as int), c),
        decreases n,
    {
        proof {
            assert(s@.take(n as int).drop_last() =~= s@.take(n - 1));
            assert(s@.take(n as int).last() == s@[n - 1]);
        }
        n -= 1;
    }
    proof {
        if n > 0 {
            assert(s@.take(n as int).last() == s@[n - 1]);
        }
        assert(crate::text::char_suffix_len(s@.take(n as int), c) == 0);
    }
    crate::text::slice_chars(s, 0, n)
}

/// The endpoint of the chat for a model: the account's proxy when a
/// non-empty account token is given (`petool_token`, with its service
/// base `petool_api_base`); else the provider's own address with the
/// first key found among its candidates (see `key_candidates`), or an
/// error asking to log in or to set that provider's key.
pub fn resolve_text_llm_service(
    config: &Config,
    petool_token: Option<&str>,
    petool_api_base: Option<&str>,
    model: &str,
    env: &ProviderEnv,
) -> (r: Result<LlmEndpoint, String>)
    ensures
        match petool_token {
            Some(t) if t@.len() > 0 => r matches Ok(e) && e.api_key@ == t@ && e.api_base@ == proxy_base(match petool_api_base {
                Some(b) => Some(b@),
                None => None,
            }),
            _ => {
                let p = chat_model_provider(model@);
                match first_candidate(key_candidates(*config, *env, p)) {
                    Some(k) => r matches Ok(e) && e.api_key@ == k && e.api_base@ == provider_api_base(p),
                    None => r matches Err(m) && m@ == missing_key_message(p),
                }
            },
        },
{
    if let Some(token) = petool_token {
        if !token.is_empty() {
            let base = match petool_api_base {
                Some(b) => chars_of(b),
                None => chars_of("http://localhost:8000"),
            };
            let mut out = trim_end_chars(base.as_slice(), '/');
            let v1 = chars_of("/v1");
            push_all(&mut out, v1.as_slice());
            return Ok(LlmEndpoint { api_key: owned(token), api_base: string_of(out.as_slice()) });
        }
    }
    let p = detect_text_model_provider(model);
    let candidates: Vec<Option<String>> = match p {
        TextModelProvider::Glm => vec![
            config.api_key.clone(),
            env_value(env.glm_api_key.clone()),
            env_value(env.openai_api_key.clone()),
        ],
        TextModelProvider::Doubao => vec![
            config.ark_api_key.clone(),
            env_value(env.ark_api_key.clone()),
            env_value(env.doubao_api_key.clone()),
            config.api_key.clone(),
        ],
        TextModelProvider::MiniMax => vec![
            config.minimax_api_key.clone(),
            env_value(env.minimax_api_key.clone()),
            env_value(env.openai_api_key.clone()),
            env_value(env.anthropic_api_key.clone()),
        ],
    };
    proof {
        lemma_first_candidate(candidates@);
        assert(candidates@.map_values(|o: Option<String>| opt_view(o)) =~= key_candidates(*config, *env, p));
    }
    match first_non_empty(candidates) {
        Some(k) => {
            let base = match p {
                TextModelProvider::Glm => owned("https://open.bigmodel.cn/api/paas/v4"),
                TextModelProvider::Doubao => owned("https://ark.cn-beijing.volces.com/api/v3"),
                TextModelProvider::MiniMax => owned("https://api.minimaxi.com/v1"),
            };
            Ok(LlmEndpoint { api_key: k, api_base: base })
        },
        None => Err(match p {
            TextModelProvider::Glm => owned("请先登录账号，或在设置中填写 GLM API Key"),
            TextModelProvider::Doubao => owned("请先登录账号，或在设置中填写 Doubao API Key"),
            TextModelProvider::MiniMax => owned("请先登录账号，或在设置中填写 MiniMax API Key"),
        }),
    }
}

/// The endpoint of image generation: the Ark address with the first key
/// found among the Doubao candidates, or an error.
pub fn resolve_image_generation_llm_service(config: &Config, env: &ProviderEnv) -> (r: Result<LlmEndpoint, String>)
    ensures
        match first_candidate(key_candidates(*config, *env, TextModelProvider::Doubao)) {
            Some(k) => r matches Ok(e) && e.api_key@ == k && e.api_base@ == ark_api_base(),
            None => r matches Err(m) && m@ == "Image API key not set"@,
        },
{
    let candidates: Vec<Option<String>> = vec![
        config.ark_api_key.clone(),
        env_value(env.ark_api_key.clone()),
        env_value(env.doubao_api_key.clone()),
        config.api_key.clone(),
    ];
    proof {
        lemma_first_candidate(candidates@);
        assert(candidates@.map_values(|o: Option<String>| opt_view(o))
            =~= key_candidates(*config, *env, TextModelProvider::Doubao));
    }
    match first_non_empty(candidates) {
        Some(k) => Ok(LlmEndpoint { api_key: k, api_base: owned("https://ark.cn-beijing.volces.com/api/v3") }),
        None => Err(owned("Image API key not set")),
    }
}

/// The pattern that finds a string field of the configuration file in its
/// raw text: the quoted name, a colon, and the quoted value (group 1).
pub open spec fn raw_field_pattern(name: Seq<char>) -> Seq<char> {
    "\""@ + name + "\"\\s*:\\s*\"([^\"]*)\""@
}

/// A setting read from the raw configuration file: group 1 of the first
/// match of its pattern, trimmed, unless blank.
pub open spec fn raw_setting(raw: Seq<char>, name: Seq<char>) -> Option<Seq<char>> {
    match regex_first_groups(raw_field_pattern(name), raw) {
        Some(g) => match crate::html::group_at(g, 1) {
            Some(v) => if trim_seq(v).len() > 0 {
                Some(trim_seq(v))
            } else {
                None
            },
            None => None,
        },
        None => None,
    }
}

fn read_raw_setting(raw: &str, name: &str) -> (r: Option<String>)
    ensures
        opt_view(r) == raw_setting(raw@, name@),
{
    let mut pattern = chars_of("\"");
    let nc = chars_of(name);
    push_all(&mut pattern, nc.as_slice());
    let tail = chars_of("\"\\s*:\\s*\"([^\"]*)\"");
    push_all(&mut pattern, tail.as_slice());
    let p = string_of(pattern.as_slice());
    match regex_captures_first(p.as_str(), raw) {
        Some(g) => {
            let v = crate::html::group(&g, 1);
            trim_present(&v)
        },
        None => None,
    }
}

/// The key and base address of a discovery service: the configured ones
/// (trimmed, unless blank) when either is set; else those written in the
/// raw configuration file, when it could be read (see `raw_setting`).
pub open spec fn discovery_settings_of(
    config_key: Option<String>,
    config_base: Option<String>,
    raw_config: Option<Seq<char>>,
    key_field: Seq<char>,
    base_field: Seq<char>,
) -> (Option<Seq<char>>, Option<Seq<char>>) {
    let key = trimmed_present(config_key);
    let base = trimmed_present(config_base);
    if key is Some || base is Some {
        (key, base)
    } else {
        match raw_config {
            Some(raw) => (raw_setting(raw, key_field), raw_setting(raw, base_field)),
            None => (None, None),
        }
    }
}

/// The settings of a discovery service (see `discovery_settings_of`).
/// `config_key` and `config_base` are the loaded configuration's fields
/// (`None` when it did not load); `raw_config` is the configuration file's
/// text, when it could be read.
pub fn discovery_settings(
    config_key: Option<String>,
    config_base: Option<String>,
    raw_config: Option<&str>,
    key_field: &str,
    base_field: &str,
) -> (r: (Option<String>, Option<String>))
    ensures
        (opt_view(r.0), opt_view(r.1)) == discovery_settings_of(config_key, config_base, match raw_config {
            Some(t) => Some(t@),
            None => None,
        }, key_field@, base_field@),
{
    let key = trim_present(&config_key);
    let base = trim_present(&config_base);
    if key.is_some() || base.is_some() {
        return (key, base);
    }
    match raw_config {
        Some(raw) => (read_raw_setting(raw, key_field), read_raw_setting(raw, base_field)),
        None => (None, None),
    }
}

/// The ClawHub settings used for skill discovery (see
/// `discovery_settings_of`, with the fields `clawhub_api_key` and
/// `clawhub_api_base`).
pub fn resolve_clawhub_settings_for_discovery(config: Option<&Config>, raw_config: Option<&str>) -> (r: (Option<String>, Option<String>))
    ensures
        (opt_view(r.0), opt_view(r.1)) == discovery_settings_of(
            match config {
                Some(c) => c.clawhub_api_key,
                None => None,
            },
            match config {
                Some(c) => c.clawhub_api_base,
                None => None,
            },
            match raw_config {
                Some(t) => Some(t@),
                None => None,
            },
            "clawhub_api_key"@,
            "clawhub_api_base"@,
        ),
{
    let (key, base) = match config {
        Some(c) => (c.clawhub_api_key.clone(), c.clawhub_api_base.clone()),
        None => (None, None),
    };
    discovery_settings(key, base, raw_config, "clawhub_api_key", "clawhub_api_base")
}

/// The SkillsMP settings used for skill discovery (see
/// `discovery_settings_of`, with the fields `skillsmp_api_key` and
/// `skillsmp_api_base`). `config_key` and `config_base` are those fields of
/// the loaded configuration (`None` when it did not load).
pub fn resolve_skillsmp_settings(config_key: Option<String>, config_base: Option<String>, raw_config: Option<&str>) -> (r: (Option<String>, Option<String>))
    ensures
        (opt_view(r.0), opt_view(r.1)) == discovery_settings_of(config_key, config_base, match raw_config {
            Some(t) => Some(t@),
            None => None,
        }, "skillsmp_api_key"@, "skillsmp_api_base"@),
{
    discovery_settings(config_key, config_base, raw_config, "skillsmp_api_key", "skillsmp_api_base")
}

} // verus!
