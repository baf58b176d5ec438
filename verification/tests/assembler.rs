use fate_todo::assemble::{assemble_character, assemble_skill, sort_aspects};
use fate_todo::dto::{Aspect, AspectType, Character, SkillInner, SkillOuter};
use fate_todo::AppError;

fn aspect(description: &str, aspect_type: AspectType) -> Aspect {
    Aspect { description: description.to_string(), aspect_type }
}

fn skill(name: &str, level: i32) -> SkillOuter {
    SkillOuter { name: SkillInner { name: name.to_string() }, level }
}

#[test]
fn sort_groups_by_category_in_fixed_order() {
    let input = vec![
        aspect("broke", AspectType::Other),
        aspect("haunted", AspectType::Trouble),
        aspect("ace pilot", AspectType::High),
        aspect("curious", AspectType::Other),
    ];
    let sorted = sort_aspects(input);
    assert_eq!(
        sorted,
        vec![
            aspect("ace pilot", AspectType::High),
            aspect("haunted", AspectType::Trouble),
            aspect("broke", AspectType::Other),
            aspect("curious", AspectType::Other),
        ]
    );
}

#[test]
fn sort_is_idempotent() {
    let input = vec![
        aspect("b", AspectType::Trouble),
        aspect("a", AspectType::High),
        aspect("c", AspectType::Other),
    ];
    let once = sort_aspects(input);
    let twice = sort_aspects(once.clone());
    assert_eq!(once, twice);
}

#[test]
fn sort_keeps_input_order_within_a_category() {
    let input = vec![
        aspect("first other", AspectType::Other),
        aspect("first high", AspectType::High),
        aspect("second other", AspectType::Other),
        aspect("second high", AspectType::High),
    ];
    let sorted = sort_aspects(input);
    assert_eq!(
        sorted,
        vec![
            aspect("first high", AspectType::High),
            aspect("second high", AspectType::High),
            aspect("first other", AspectType::Other),
            aspect("second other", AspectType::Other),
        ]
    );
}

#[test]
fn sort_of_empty_list_is_empty() {
    let sorted = sort_aspects(Vec::new());
    assert!(sorted.is_empty());
}

#[test]
fn skill_levels_inside_range_round_trip() {
    let low = assemble_skill(skill("Fight", 0)).unwrap();
    assert_eq!(low.name, "Fight");
    assert_eq!(low.rating, 0);
    let high = assemble_skill(skill("Lore", 255)).unwrap();
    assert_eq!(high.name, "Lore");
    assert_eq!(high.rating, 255);
    let mid = assemble_skill(skill("Stealth", 4)).unwrap();
    assert_eq!(mid.rating, 4);
}

#[test]
fn skill_level_above_range_is_rejected() {
    let r = assemble_skill(skill("Fight", 256));
    assert_eq!(r, Err(AppError::Validation));
}

#[test]
fn skill_level_below_range_is_rejected() {
    let r = assemble_skill(skill("Fight", -1));
    assert_eq!(r, Err(AppError::Validation));
}

#[test]
fn assemble_character_flattens_everything() {
    let raw = Character {
        name: "Nova".to_string(),
        stunts: vec!["signature move".to_string()],
        skills: vec![skill("Fight", 2), skill("Lore", 5)],
        aspects: vec![
            aspect("in debt", AspectType::Trouble),
            aspect("daring explorer", AspectType::High),
            aspect("old rival", AspectType::Other),
        ],
    };
    let all_skills = vec![
        SkillInner { name: "Fight".to_string() },
        SkillInner { name: "Lore".to_string() },
        SkillInner { name: "Stealth".to_string() },
    ];
    let sheet = assemble_character(raw, all_skills, true).unwrap();
    assert_eq!(sheet.character.name, "Nova");
    assert_eq!(sheet.character.stunts, vec!["signature move".to_string()]);
    assert_eq!(
        sheet.character.aspects,
        vec![
            "daring explorer".to_string(),
            "in debt".to_string(),
            "old rival".to_string(),
        ]
    );
    assert_eq!(sheet.character.skills.len(), 2);
    assert_eq!(sheet.character.skills[0].name, "Fight");
    assert_eq!(sheet.character.skills[0].rating, 2);
    assert_eq!(sheet.character.skills[1].name, "Lore");
    assert_eq!(sheet.character.skills[1].rating, 5);
    assert_eq!(
        sheet.all_skills,
        vec!["Fight".to_string(), "Lore".to_string(), "Stealth".to_string()]
    );
    assert!(sheet.editable);
}

#[test]
fn assemble_character_rejects_a_bad_level() {
    let raw = Character {
        name: "Nova".to_string(),
        stunts: Vec::new(),
        skills: vec![skill("Fight", 2), skill("Lore", 9000)],
        aspects: Vec::new(),
    };
    let r = assemble_character(raw, Vec::new(), false);
    assert_eq!(r, Err(AppError::Validation));
    assert_eq!(AppError::Validation.status_code(), 400);
}

#[test]
fn assemble_character_of_empty_lists_is_empty() {
    let raw = Character {
        name: "Blank".to_string(),
        stunts: Vec::new(),
        skills: Vec::new(),
        aspects: Vec::new(),
    };
    let sheet = assemble_character(raw, Vec::new(), false).unwrap();
    assert_eq!(sheet.character.name, "Blank");
    assert!(sheet.character.aspects.is_empty());
    assert!(sheet.character.skills.is_empty());
    assert!(sheet.character.stunts.is_empty());
    assert!(sheet.all_skills.is_empty());
    assert!(!sheet.editable);
}
