use model_loader::loader::{identity_index_list, lookup_texture, store_texture};
use model_loader::model::{
    Mesh, Model, ModelLoadError, Texture, TextureKind, TextureRefs, Vertex,
};
use model_loader::geometry::{Vector2, Vector3};
use model_loader::texture::{DecodeError, TextureImage2D};

fn texture(name: &str, kind: TextureKind) -> Texture {
    Texture::new(String::from(name), kind, TextureImage2D::new(1, 1, 1, vec![0]))
}

#[test]
fn texture_keeps_what_it_is_given() {
    let t = Texture::new(
        String::from("wall.png"),
        TextureKind::Bump,
        TextureImage2D::new(2, 1, 1, vec![5, 6]),
    );
    assert_eq!(t.name(), "wall.png");
    assert_eq!(t.kind(), TextureKind::Bump);
    assert_eq!(t.data().width, 2);
    assert_eq!(t.data().as_slice(), &[5, 6]);
}

#[test]
fn references_start_empty() {
    let refs = TextureRefs::new();
    assert_eq!(refs.get(TextureKind::Ambient), None);
    assert_eq!(refs.get(TextureKind::Diffuse), None);
    assert_eq!(refs.get(TextureKind::Specular), None);
    assert_eq!(refs.get(TextureKind::Bump), None);
    assert_eq!(refs.get(TextureKind::Emission), None);
}

#[test]
fn insert_records_one_index_per_kind() {
    let mut refs = TextureRefs::new();
    refs.insert(TextureKind::Diffuse, 4);
    refs.insert(TextureKind::Emission, 0);
    assert_eq!(refs.get(TextureKind::Diffuse), Some(4));
    assert_eq!(refs.get(TextureKind::Emission), Some(0));
    assert_eq!(refs.get(TextureKind::Ambient), None);
    refs.insert(TextureKind::Diffuse, 9);
    assert_eq!(refs.get(TextureKind::Diffuse), Some(9));
    assert_eq!(refs.get(TextureKind::Emission), Some(0));
}

#[test]
fn lookup_finds_a_texture_by_its_name() {
    let table = vec![
        texture("a.png", TextureKind::Diffuse),
        texture("b.png", TextureKind::Bump),
        texture("c.jpg", TextureKind::Ambient),
    ];
    assert_eq!(lookup_texture(&table, "a.png"), Some(0));
    assert_eq!(lookup_texture(&table, "b.png"), Some(1));
    assert_eq!(lookup_texture(&table, "c.jpg"), Some(2));
    assert_eq!(lookup_texture(&table, "d.png"), None);
    assert_eq!(lookup_texture(&table, "A.png"), None);
    assert_eq!(lookup_texture(&[], "a.png"), None);
}

#[test]
fn lookup_takes_the_first_of_equal_names() {
    let table = vec![
        texture("a.png", TextureKind::Diffuse),
        texture("b.png", TextureKind::Bump),
        texture("b.png", TextureKind::Ambient),
    ];
    assert_eq!(lookup_texture(&table, "b.png"), Some(1));
}

#[test]
fn store_appends_a_decoded_image() {
    let mut table = vec![texture("a.png", TextureKind::Diffuse)];
    let mut refs = TextureRefs::new();
    let image = TextureImage2D::new(1, 2, 1, vec![7, 8]);
    let index = store_texture(&mut table, &mut refs, TextureKind::Specular, "s.png", Ok(image));
    assert_eq!(index, Ok(1));
    assert_eq!(table.len(), 2);
    assert_eq!(table[1].name(), "s.png");
    assert_eq!(table[1].kind(), TextureKind::Specular);
    assert_eq!(table[1].data().as_slice(), &[7, 8]);
    assert_eq!(table[0].name(), "a.png");
    assert_eq!(refs.get(TextureKind::Specular), Some(1));
    assert_eq!(refs.get(TextureKind::Diffuse), None);
}

#[test]
fn store_of_a_decoder_error_changes_nothing() {
    let mut table = vec![texture("a.png", TextureKind::Diffuse)];
    let mut refs = TextureRefs::new();
    refs.insert(TextureKind::Diffuse, 0);
    for cause in [DecodeError::Malformed, DecodeError::SizeMismatch] {
        let outcome = store_texture(&mut table, &mut refs, TextureKind::Bump, "b.png", Err(cause));
        assert_eq!(outcome, Err(ModelLoadError::DecodeError));
    }
    assert_eq!(table.len(), 1);
    assert_eq!(refs.get(TextureKind::Bump), None);
    assert_eq!(refs.get(TextureKind::Diffuse), Some(0));
}

#[test]
fn identity_list_counts_up_from_zero() {
    assert_eq!(identity_index_list(0), Vec::<u32>::new());
    assert_eq!(identity_index_list(1), vec![0]);
    assert_eq!(identity_index_list(6), vec![0, 1, 2, 3, 4, 5]);
}

#[test]
fn mesh_and_model_keep_what_they_are_given() {
    let zero3 = Vector3::zero();
    let vertex = Vertex {
        position: Vector3 { x: 1, y: 2, z: 3 },
        normal: zero3,
        tex_coords: Vector2::zero(),
        tangent: zero3,
        bitangent: zero3,
    };
    let mut refs = TextureRefs::new();
    refs.insert(TextureKind::Diffuse, 0);
    let mesh = Mesh::new(String::from("part"), vec![vertex; 3], vec![0, 1, 2], refs);
    assert_eq!(mesh.name(), "part");
    assert_eq!(mesh.vertices(), &[vertex, vertex, vertex]);
    assert_eq!(mesh.vertex_indices(), &[0, 1, 2]);
    assert_eq!(mesh.texture_indices().get(TextureKind::Diffuse), Some(0));
    let model = Model::new(
        String::from("whole"),
        vec![mesh],
        vec![texture("d.png", TextureKind::Diffuse)],
        true,
    );
    assert_eq!(model.name(), "whole");
    assert_eq!(model.meshes().len(), 1);
    assert_eq!(model.meshes()[0].name(), "part");
    assert_eq!(model.textures_loaded().len(), 1);
    assert_eq!(model.textures_loaded()[0].name(), "d.png");
    assert!(model.gamma_correction);
    assert!(model.gamma_correction());
}
