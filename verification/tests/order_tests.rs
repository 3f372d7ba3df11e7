use petool_core::models::{Skill, SkillType};
use petool_core::order::{stable_number_order, stable_text_order};
use petool_core::prompt::build_skills_usage_guidance;
use petool_core::scheduler::schedule::Timestamp;

fn chars(s: &str) -> Vec<char> {
    s.chars().collect()
}

fn skill(name: &str, description: &str) -> Skill {
    Skill {
        id: name.to_string(),
        name: name.to_string(),
        version: "1.0.0".to_string(),
        description: description.to_string(),
        author: "me".to_string(),
        enabled: true,
        installed_at: Timestamp { nanos: 0 },
        script_type: SkillType::Markdown,
    }
}

#[test]
fn stable_orders_keep_ties_in_place() {
    let keys = vec![chars("b"), chars("a"), chars("b"), chars("A")];
    assert_eq!(stable_text_order(&keys), vec![3, 1, 0, 2]);
    assert_eq!(stable_number_order(&vec![5, 1, 5, 0]), vec![3, 1, 0, 2]);
    assert!(stable_number_order(&Vec::new()).is_empty());
}

#[test]
fn skills_guidance_lists_skills_by_lowercase_name() {
    let none = build_skills_usage_guidance(&Vec::new());
    assert!(none.starts_with("Skills-first policy (mandatory when uncertain):\n- Before implementing"));
    assert!(none.ends_with("continue with direct implementation.\nInstalled skills: (none)"));
    let skills = vec![skill("pdf", " Read PDFs "), skill("Excel", "Sheets"), skill("csv", "")];
    let text = build_skills_usage_guidance(&skills);
    assert!(text.ends_with("<available_skills>\n- csv: \n- Excel: Sheets\n- pdf: Read PDFs\n</available_skills>"));
    assert_eq!(text.lines().count(), 7 + 5);
}
