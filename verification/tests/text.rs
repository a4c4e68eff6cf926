use model_loader::text::{ends_with, str_eq};

#[test]
fn ends_with_finds_a_suffix() {
    assert!(ends_with("model.obj", ".obj"));
    assert!(ends_with(".obj", ".obj"));
    assert!(ends_with("anything", ""));
    assert!(ends_with("", ""));
}

#[test]
fn ends_with_refuses_what_is_no_suffix() {
    assert!(!ends_with("model.obj", ".mtl"));
    assert!(!ends_with("obj", ".obj"));
    assert!(!ends_with("model.obj.bak", ".obj"));
    assert!(!ends_with("model.OBJ", ".obj"));
    assert!(!ends_with("", ".obj"));
}

#[test]
fn ends_with_compares_whole_characters() {
    assert!(ends_with("caf\u{e9}.png", "\u{e9}.png"));
    assert!(!ends_with("cafe.png", "\u{e9}.png"));
}

#[test]
fn str_eq_is_exact() {
    assert!(str_eq("Brick", "Brick"));
    assert!(str_eq("", ""));
    assert!(!str_eq("Brick", "brick"));
    assert!(!str_eq("Brick", "Bricks"));
    assert!(!str_eq("Brick", ""));
    assert!(str_eq("\u{e9}t\u{e9}", "\u{e9}t\u{e9}"));
    assert!(!str_eq("\u{e9}", "e"));
}
