use model_loader::loader::texture_map;
use model_loader::material::{parse, search_material_sets, Material, MaterialSet};
use model_loader::model::TextureKind;
use model_loader::text::ParseError;

fn material(name: &str, diffuse: Option<&str>) -> Material {
    Material {
        name: String::from(name),
        map_ambient: None,
        map_diffuse: diffuse.map(String::from),
        map_specular: None,
        map_bump: None,
        map_emission: None,
    }
}

const LIBRARY: &str = "newmtl Brick\n\
                       Ns 10.0\n\
                       Ka 1.0 1.0 1.0\n\
                       Kd 0.8 0.8 0.8\n\
                       Ks 0.5 0.5 0.5\n\
                       d 1.0\n\
                       illum 2\n\
                       map_Ka ambient.png\n\
                       map_Kd diffuse.png\n\
                       map_Ks specular.jpg\n\
                       map_bump bump.png\n\
                       \n\
                       newmtl Plain\n\
                       Ns 1.0\n\
                       Ka 0.0 0.0 0.0\n\
                       Kd 0.0 0.0 0.0\n\
                       Ks 0.0 0.0 0.0\n\
                       d 1.0\n\
                       illum 1\n";

#[test]
fn parse_reads_names_and_maps_in_declared_order() {
    let set = parse(LIBRARY).unwrap();
    assert_eq!(set.materials.len(), 2);
    let brick = &set.materials[0];
    assert_eq!(brick.name, "Brick");
    assert_eq!(brick.map_ambient.as_deref(), Some("ambient.png"));
    assert_eq!(brick.map_diffuse.as_deref(), Some("diffuse.png"));
    assert_eq!(brick.map_specular.as_deref(), Some("specular.jpg"));
    assert_eq!(brick.map_bump.as_deref(), Some("bump.png"));
    assert_eq!(brick.map_emission, None);
    let plain = &set.materials[1];
    assert_eq!(plain.name, "Plain");
    assert_eq!(plain.map_ambient, None);
    assert_eq!(plain.map_diffuse, None);
    assert_eq!(plain.map_specular, None);
    assert_eq!(plain.map_bump, None);
    assert_eq!(plain.map_emission, None);
}

#[test]
fn material_parse_of_an_empty_text_is_an_empty_set() {
    assert!(parse("").unwrap().materials.is_empty());
}

#[test]
fn material_parse_reports_the_line_of_an_error() {
    let error = parse("newmtl Brick\nNs ten\n").unwrap_err();
    assert_eq!(error, ParseError { line: Some(2) });
}

#[test]
fn search_finds_the_first_match_across_sets() {
    let sets = vec![
        MaterialSet { materials: vec![material("Wood", Some("wood.png"))] },
        MaterialSet {
            materials: vec![material("Brick", Some("first.png")), material("Brick", Some("second.png"))],
        },
        MaterialSet { materials: vec![material("Brick", Some("third.png"))] },
    ];
    let found = search_material_sets(&sets, "Brick").unwrap();
    assert_eq!(found.map_diffuse.as_deref(), Some("first.png"));
    let wood = search_material_sets(&sets, "Wood").unwrap();
    assert_eq!(wood.map_diffuse.as_deref(), Some("wood.png"));
}

#[test]
fn search_is_exact_and_case_sensitive() {
    let sets = vec![MaterialSet { materials: vec![material("Brick", None)] }];
    assert!(search_material_sets(&sets, "brick").is_none());
    assert!(search_material_sets(&sets, "Bric").is_none());
    assert!(search_material_sets(&sets, "Bricks").is_none());
    assert!(search_material_sets(&sets, "").is_none());
    assert!(search_material_sets(&sets, "Brick").is_some());
}

#[test]
fn search_in_nothing_finds_nothing() {
    assert!(search_material_sets(&[], "Brick").is_none());
    let empty = vec![MaterialSet { materials: vec![] }, MaterialSet { materials: vec![] }];
    assert!(search_material_sets(&empty, "Brick").is_none());
}

#[test]
fn texture_map_picks_the_slot_of_the_kind() {
    let set = parse(LIBRARY).unwrap();
    let brick = &set.materials[0];
    assert_eq!(texture_map(brick, TextureKind::Ambient), Some("ambient.png"));
    assert_eq!(texture_map(brick, TextureKind::Diffuse), Some("diffuse.png"));
    assert_eq!(texture_map(brick, TextureKind::Specular), Some("specular.jpg"));
    assert_eq!(texture_map(brick, TextureKind::Bump), Some("bump.png"));
    assert_eq!(texture_map(brick, TextureKind::Emission), None);
    let mut glowing = material("Lamp", None);
    glowing.map_emission = Some(String::from("glow.png"));
    assert_eq!(texture_map(&glowing, TextureKind::Emission), Some("glow.png"));
    assert_eq!(texture_map(&glowing, TextureKind::Diffuse), None);
}
