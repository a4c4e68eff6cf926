use model_loader::mesh::{BackendMeshID, BackendTextureID, MeshID, TextureID};

#[test]
fn texture_id_keeps_its_number() {
    assert_eq!(TextureID::new(7).id(), 7);
    assert_eq!(TextureID::new(0).id(), 0);
    assert_eq!(TextureID::new(u32::MAX).id(), u32::MAX);
    assert_eq!(TextureID::new(7), TextureID::new(7));
    assert_ne!(TextureID::new(7), TextureID::new(8));
}

#[test]
fn backend_texture_id_keeps_its_number() {
    assert_eq!(BackendTextureID::new(9).id(), 9);
    assert_ne!(BackendTextureID::new(9), BackendTextureID::new(10));
}

#[test]
fn mesh_id_keeps_its_number() {
    assert_eq!(MeshID::new(3).id(), 3);
    assert_eq!(MeshID::new(3), MeshID::new(3));
}

#[test]
fn backend_mesh_id_keeps_its_three_names() {
    let id = BackendMeshID::new(1, 2, 3);
    assert_eq!((id.vao(), id.vbo(), id.ebo()), (1, 2, 3));
    assert_ne!(BackendMeshID::new(1, 2, 3), BackendMeshID::new(3, 2, 1));
}
