use fate_todo::dto::{Character, SkillInner, SkillOuter};
use fate_todo::error::AppError;
use fate_todo::handlers::{character_page, hello_from_the_server};
use fate_todo::render::render_reply;
use fate_todo::request::parse_editable;

#[test]
fn hello_replies_with_the_fixed_literal() {
    assert_eq!(hello_from_the_server(), "Hello!");
}

#[test]
fn editable_absent_defaults_to_false() {
    assert!(!parse_editable(None));
}

#[test]
fn editable_true_enables_editing() {
    assert!(parse_editable(Some("true")));
}

#[test]
fn editable_false_value_stays_false() {
    assert!(!parse_editable(Some("false")));
}

#[test]
fn editable_unparseable_defaults_to_false() {
    assert!(!parse_editable(Some("maybe")));
    assert!(!parse_editable(Some("TRUE")));
    assert!(!parse_editable(Some("")));
    assert!(!parse_editable(Some("1")));
}

#[test]
fn missing_character_is_not_found_with_404() {
    let r = character_page(None, Vec::new(), false);
    assert_eq!(r, Err(AppError::NotFound));
    assert_eq!(AppError::NotFound.status_code(), 404);
}

#[test]
fn present_character_is_assembled() {
    let raw = Character {
        name: "Vex".to_string(),
        stunts: Vec::new(),
        skills: vec![SkillOuter { name: SkillInner { name: "Fight".to_string() }, level: 1 }],
        aspects: Vec::new(),
    };
    let sheet = character_page(Some(raw), Vec::new(), true).unwrap();
    assert_eq!(sheet.character.name, "Vex");
    assert_eq!(sheet.character.skills[0].rating, 1);
    assert!(sheet.editable);
}

#[test]
fn status_codes_follow_the_taxonomy() {
    assert_eq!(AppError::NotFound.status_code(), 404);
    assert_eq!(AppError::Validation.status_code(), 400);
    assert_eq!(AppError::Upstream.status_code(), 502);
    assert_eq!(AppError::Render.status_code(), 500);
}

#[test]
fn successful_render_is_served_as_is() {
    let r = render_reply(Ok("<p>hi</p>".to_string()), "ignored".to_string());
    assert_eq!(r.status, 200);
    assert_eq!(r.body, "<p>hi</p>");
}

#[test]
fn failed_render_reports_error_and_dump() {
    let r = render_reply(
        Err("missing field".to_string()),
        "TodoList { todos: [] }".to_string(),
    );
    assert_eq!(r.status, 500);
    assert_eq!(
        r.body,
        "Failed to render template. Error: missing field; data TodoList { todos: [] }"
    );
}
