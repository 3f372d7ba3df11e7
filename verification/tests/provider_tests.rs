use petool_core::config::Config;
use petool_core::llm::{extract_assistant_content_text, AssistantContent, ContentPart};
use petool_core::provider::{
    detect_text_model_provider, discovery_settings, env_value, resolve_clawhub_settings_for_discovery,
    resolve_image_generation_llm_service, resolve_skillsmp_settings, resolve_text_llm_service, ProviderEnv,
    TextModelProvider,
};

fn no_env() -> ProviderEnv {
    ProviderEnv {
        glm_api_key: None,
        openai_api_key: None,
        ark_api_key: None,
        doubao_api_key: None,
        minimax_api_key: None,
        anthropic_api_key: None,
    }
}

#[test]
fn chat_providers_by_prefix() {
    assert_eq!(detect_text_model_provider(" MiniMax-M2 "), TextModelProvider::MiniMax);
    assert_eq!(detect_text_model_provider("doubao-seed"), TextModelProvider::Doubao);
    assert_eq!(detect_text_model_provider("glm-4.6"), TextModelProvider::Glm);
    assert_eq!(detect_text_model_provider("gpt-4o"), TextModelProvider::Glm);
}

#[test]
fn env_values_are_trimmed() {
    assert_eq!(env_value(Some(" key ".to_string())).as_deref(), Some("key"));
    assert_eq!(env_value(Some("  ".to_string())), None);
    assert_eq!(env_value(None), None);
}

#[test]
fn account_token_goes_through_the_proxy() {
    let config = Config::default_with("/tmp/Downloads".to_string(), false);
    let e = resolve_text_llm_service(&config, Some("tok"), Some("https://api.example.com//"), "glm-4", &no_env()).unwrap();
    assert_eq!(e.api_key, "tok");
    assert_eq!(e.api_base, "https://api.example.com/v1");
    let e = resolve_text_llm_service(&config, Some("tok"), None, "glm-4", &no_env()).unwrap();
    assert_eq!(e.api_base, "http://localhost:8000/v1");
}

#[test]
fn provider_keys_are_tried_in_order() {
    let mut config = Config::default_with("/tmp/Downloads".to_string(), false);
    assert_eq!(
        resolve_text_llm_service(&config, Some(""), None, "glm-4", &no_env()).err().unwrap(),
        "请先登录账号，或在设置中填写 GLM API Key"
    );
    let mut env = no_env();
    env.openai_api_key = Some(" sk-open ".to_string());
    let e = resolve_text_llm_service(&config, None, None, "glm-4", &env).unwrap();
    assert_eq!(e.api_key, "sk-open");
    assert_eq!(e.api_base, "https://open.bigmodel.cn/api/paas/v4");
    config.api_key = Some("  ".to_string());
    env.doubao_api_key = Some("db".to_string());
    let e = resolve_text_llm_service(&config, None, None, "doubao-1", &env).unwrap();
    assert_eq!(e.api_key, "db");
    assert_eq!(e.api_base, "https://ark.cn-beijing.volces.com/api/v3");
    let e = resolve_text_llm_service(&config, None, None, "minimax-m1", &env).unwrap();
    assert_eq!(e.api_key, "sk-open");
    assert_eq!(e.api_base, "https://api.minimaxi.com/v1");
    assert_eq!(resolve_image_generation_llm_service(&config, &env).unwrap().api_key, "db");
    assert_eq!(
        resolve_image_generation_llm_service(&config, &no_env()).err().unwrap(),
        "Image API key not set"
    );
}

#[test]
fn discovery_settings_fall_back_to_the_raw_file() {
    let raw = r#"{ "clawhub_api_key" : " ck ", "clawhub_api_base":"", "skillsmp_api_base": "https://smp" }"#;
    assert_eq!(
        discovery_settings(Some(" k ".to_string()), None, Some(raw), "clawhub_api_key", "clawhub_api_base"),
        (Some("k".to_string()), None)
    );
    let mut config = Config::default_with("/tmp/Downloads".to_string(), false);
    config.clawhub_api_base = None;
    assert_eq!(resolve_clawhub_settings_for_discovery(Some(&config), Some(raw)), (Some("ck".to_string()), None));
    assert_eq!(resolve_clawhub_settings_for_discovery(None, None), (None, None));
    assert_eq!(resolve_skillsmp_settings(None, None, Some(raw)), (None, Some("https://smp".to_string())));
}

#[test]
fn assistant_content_text_is_read() {
    let part = |t: Option<&str>, x: Option<&str>| ContentPart { part_type: t.map(str::to_string), text: x.map(str::to_string) };
    assert_eq!(extract_assistant_content_text(&AssistantContent::Text("hi".to_string())).as_deref(), Some("hi"));
    let parts = AssistantContent::Parts(vec![
        part(Some("text"), Some("a")),
        part(Some("image"), Some("x")),
        part(None, Some("y")),
        part(Some("text"), Some("b")),
    ]);
    assert_eq!(extract_assistant_content_text(&parts).as_deref(), Some("ab"));
    assert_eq!(extract_assistant_content_text(&AssistantContent::Parts(vec![part(Some("text"), Some(""))])), None);
    assert_eq!(extract_assistant_content_text(&AssistantContent::Other), None);
}
