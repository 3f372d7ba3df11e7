use petool_core::agent::{
    check_spawn_content, eq_ignore_ascii_case, resolve_skill_id, sessions_history_limit, sessions_list_limit,
    sessions_send_model, skill_discover_limit,
};
use petool_core::models::{Skill, SkillType};
use petool_core::scheduler::schedule::Timestamp;

fn skill(id: &str, name: &str) -> Skill {
    Skill {
        id: id.to_string(),
        name: name.to_string(),
        version: "1.0.0".to_string(),
        description: String::new(),
        author: "me".to_string(),
        enabled: true,
        installed_at: Timestamp { nanos: 0 },
        script_type: SkillType::Markdown,
    }
}

#[test]
fn session_and_skill_limits() {
    assert_eq!(sessions_list_limit(None), 30);
    assert_eq!(sessions_list_limit(Some(0)), 1);
    assert_eq!(sessions_list_limit(Some(1000)), 200);
    assert_eq!(sessions_history_limit(None), 100);
    assert_eq!(sessions_history_limit(Some(600)), 500);
    assert_eq!(skill_discover_limit(None), 8);
    assert_eq!(skill_discover_limit(Some(50)), 20);
    assert_eq!(skill_discover_limit(Some(0)), 1);
}

#[test]
fn send_model_and_spawn_content() {
    assert_eq!(sessions_send_model("c1", &None, None).err().unwrap(), "Conversation not found: c1");
    assert_eq!(sessions_send_model("c1", &None, Some("glm-4".to_string())).unwrap(), "glm-4");
    assert_eq!(sessions_send_model("c1", &Some(" other ".to_string()), Some("glm-4".to_string())).unwrap(), "other");
    assert_eq!(
        check_spawn_content(&None, true).err().unwrap(),
        "'content' is required when 'run_assistant' is true"
    );
    assert!(check_spawn_content(&Some("  ".to_string()), true).is_err());
    assert!(check_spawn_content(&None, false).is_ok());
    assert!(check_spawn_content(&Some("hi".to_string()), true).is_ok());
}

#[test]
fn skills_resolve_by_id_or_name() {
    let skills = vec![skill("s1", "Weather"), skill("s2", "weather"), skill("s3", "Notes")];
    assert!(eq_ignore_ascii_case("WeAtHeR", "weather"));
    assert!(!eq_ignore_ascii_case("weather", "weathers"));
    assert_eq!(resolve_skill_id(&Some(" x9 ".to_string()), &Some("Notes".to_string()), &skills).unwrap(), "x9");
    assert_eq!(resolve_skill_id(&None, &Some("WEATHER".to_string()), &skills).unwrap(), "s1");
    assert_eq!(resolve_skill_id(&None, &Some("notes".to_string()), &skills).unwrap(), "s3");
    assert_eq!(
        resolve_skill_id(&None, &Some("maps".to_string()), &skills).err().unwrap(),
        "Skill not found by name: maps"
    );
    assert_eq!(
        resolve_skill_id(&Some(" ".to_string()), &None, &skills).err().unwrap(),
        "Either 'skill_id' or 'skill_name' is required"
    );
}
