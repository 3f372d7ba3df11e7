use petool_core::config::Config;
use petool_core::image::{
    generated_image_response,
    generated_image_messages, generated_image_url, image_generation_request,
    check_image_size, image_data_url, image_probe_plan, image_understand_plan, is_inline_image_url,
    ImageProbeArgs, ImageSource, ImageUnderstandArgs,
};

fn s(v: &str) -> Option<String> {
    Some(v.to_string())
}

fn png_header() -> Vec<u8> {
    let mut b = vec![137u8, 80, 78, 71, 13, 10, 26, 10];
    b.extend_from_slice(&[0, 0, 0, 13, 73, 72, 68, 82]);
    b.extend_from_slice(&[0, 0, 0, 2, 0, 0, 0, 3]);
    b
}

#[test]
fn probe_prefers_path_and_clamps_budget() {
    let plan = image_probe_plan(&ImageProbeArgs { path: s(" a.png "), url: s("https://x/y.png"), max_bytes: Some(10) }).unwrap();
    assert_eq!(plan.source, ImageSource::Path("a.png".to_string()));
    assert_eq!(plan.max_bytes, 1024);
    let plan = image_probe_plan(&ImageProbeArgs { path: s("   "), url: s("https://x/y.png"), max_bytes: None }).unwrap();
    assert_eq!(plan.source, ImageSource::Url("https://x/y.png".to_string()));
    assert_eq!(plan.max_bytes, 512 * 1024);
    let plan = image_probe_plan(&ImageProbeArgs { path: s("a"), url: None, max_bytes: Some(u64::MAX) }).unwrap();
    assert_eq!(plan.max_bytes, 4_194_304);
    let err = image_probe_plan(&ImageProbeArgs { path: None, url: s(" "), max_bytes: None }).err().unwrap();
    assert_eq!(err, "Either 'path' or 'url' is required");
}

fn understand(prompt: Option<String>, path: Option<String>, url: Option<String>) -> ImageUnderstandArgs {
    ImageUnderstandArgs { prompt, model: None, thinking: None, path, url, max_bytes: None }
}

#[test]
fn understand_checks_prompt_and_one_source() {
    let err = image_understand_plan(&understand(s("  "), s("a.png"), None), "m").err().unwrap();
    assert_eq!(err, "'prompt' is required and cannot be empty");
    let err = image_understand_plan(&understand(s("what"), s("a.png"), s("https://x")), "m").err().unwrap();
    assert_eq!(err, "Provide either 'path' or 'url', not both");
    let err = image_understand_plan(&understand(s("what"), None, None), "m").err().unwrap();
    assert_eq!(err, "Either 'path' or 'url' is required");
    let plan = image_understand_plan(&understand(s(" what is it "), None, s("https://x/a.png")), "vision-1").unwrap();
    assert_eq!(plan.prompt, "what is it");
    assert_eq!(plan.model, "vision-1");
    assert!(!plan.thinking);
    assert_eq!(plan.max_bytes, 4 * 1024 * 1024);
    assert_eq!(plan.source, ImageSource::Url("https://x/a.png".to_string()));
    let mut args = understand(s("p"), s("b.jpg"), None);
    args.model = s(" other ");
    args.thinking = Some(true);
    args.max_bytes = Some(100);
    let plan = image_understand_plan(&args, "vision-1").unwrap();
    assert_eq!(plan.model, "other");
    assert!(plan.thinking);
    assert_eq!(plan.max_bytes, 8192);
}

#[test]
fn inline_image_urls_are_recognised() {
    assert!(is_inline_image_url("data:image/png;base64,AAAA"));
    assert!(!is_inline_image_url("https://example.com/data:image/"));
    assert!(!is_inline_image_url("data:text/plain,hi"));
}

#[test]
fn image_size_budget() {
    assert!(check_image_size(10, 10).is_ok());
    assert_eq!(check_image_size(11, 10).err().unwrap(), "Image exceeds max_bytes (11 > 10)");
}

#[test]
fn data_url_of_png_and_unknown_bytes() {
    let bytes = png_header();
    let (url, meta) = image_data_url(&bytes).unwrap();
    assert_eq!(meta.0, "png");
    assert_eq!(meta.1, Some(2));
    assert_eq!(meta.2, Some(3));
    assert_eq!(url, "data:image/png;base64,iVBORw0KGgoAAAANSUhEUgAAAAIAAAAD");
    let err = image_data_url(b"plain text").err().unwrap();
    assert_eq!(err, "Unsupported or unknown image format: unknown");
}

#[test]
fn image_generation_uses_config_defaults() {
    let config = Config::default_with("/tmp/Downloads".to_string(), false);
    let err = image_generation_request("  ", None, None, None, &config).err().unwrap();
    assert_eq!(err, "Prompt cannot be empty");
    let q = image_generation_request(" a cat ", None, None, None, &config).unwrap();
    assert_eq!(q.prompt, "a cat");
    assert_eq!(q.model, "doubao-seedream-4-5-251128");
    assert_eq!(q.size, "2K");
    assert!(q.watermark);
    let q = image_generation_request("cat", Some("m2".to_string()), Some("1K".to_string()), Some(false), &config).unwrap();
    assert_eq!(q.model, "m2");
    assert_eq!(q.size, "1K");
    assert!(!q.watermark);
}

#[test]
fn generated_image_url_and_messages() {
    assert_eq!(generated_image_url(Some("https://img/1.png")).unwrap(), "https://img/1.png");
    assert_eq!(generated_image_url(Some("  ")).err().unwrap(), "Image API returned empty URL");
    assert_eq!(generated_image_url(None).err().unwrap(), "Image API returned empty URL");
    let (user, assistant) = generated_image_messages("a cat", "https://img/1.png");
    assert_eq!(user, "[文生图] a cat");
    assert_eq!(assistant, "![a cat](https://img/1.png)\n\nhttps://img/1.png");
}

#[test]
fn generated_image_response_records_both_messages() {
    let t1 = petool_core::scheduler::schedule::Timestamp { nanos: 1 };
    let t2 = petool_core::scheduler::schedule::Timestamp { nanos: 2 };
    let r = generated_image_response("c1", "a cat", "https://img/1.png", "u1".to_string(), t1, "a1".to_string(), t2);
    assert_eq!(r.user_message.id, "u1");
    assert_eq!(r.user_message.content, "[文生图] a cat");
    assert_eq!(r.user_message.role, petool_core::turn::MessageRole::User);
    assert_eq!(r.assistant_message.content, "![a cat](https://img/1.png)\n\nhttps://img/1.png");
    assert_eq!(r.assistant_message.created_at.nanos, 2);
    assert_eq!(r.image_url, "https://img/1.png");
}
