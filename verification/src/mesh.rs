//! Handles by which a renderer names textures and meshes: the loader's own
//! identifiers, and the object names that a graphics backend hands out.
use vstd::prelude::*;

verus! {

/// Identifies a texture of a loaded model.
#[derive(Clone, Copy, Debug, PartialEq, Eq, Structural, Hash)]
pub struct TextureID {
    id: u32,
}

impl View for TextureID {
    type V = u32;

    closed spec fn view(&self) -> u32 {
        self.id
    }
}

impl TextureID {
    #[inline]
    pub fn new(id: u32) -> (r: TextureID)
        ensures
            r@ == id,
    {
        TextureID { id }
    }

    #[inline]
    pub fn id(&self) -> (r: u32)
        ensures
            r == self@,
    {
        self.id
    }
}

/// The name under which a graphics backend holds an uploaded texture.
#[derive(Clone, Copy, Debug, PartialEq, Eq, Structural, Hash)]
pub struct BackendTextureID {
    id: u32,
}

impl View for BackendTextureID {
    type V = u32;

    closed spec fn view(&self) -> u32 {
        self.id
    }
}

impl BackendTextureID {
    #[inline]
    pub fn new(id: u32) -> (r: BackendTextureID)
        ensures
            r@ == id,
    {
        BackendTextureID { id }
    }

    #[inline]
    pub fn id(&self) -> (r: u32)
        ensures
            r == self@,
    {
        self.id
    }
}

/// Identifies a mesh of a loaded model.
#[derive(Clone, Copy, Debug, PartialEq, Eq, Structural, Hash)]
pub struct MeshID {
    id: u32,
}

impl View for MeshID {
    type V = u32;

    closed spec fn view(&self) -> u32 {
        self.id
    }
}

impl MeshID {
    #[inline]
    pub fn new(id: u32) -> (r: MeshID)
        ensures
            r@ == id,
    {
        MeshID { id }
    }

    #[inline]
    pub fn id(&self) -> (r: u32)
        ensures
            r == self@,
    {
        self.id
    }
}

/// The three buffer names under which a graphics backend holds an uploaded
/// mesh: vertex array, vertex buffer and element buffer.
#[derive(Clone, Copy, Debug, PartialEq, Eq, Structural, Hash)]
pub struct BackendMeshID {
    vao: u32,
    vbo: u32,
    ebo: u32,
}

impl View for BackendMeshID {
    type V = (u32, u32, u32);

    closed spec fn view(&self) -> (u32, u32, u32) {
        (self.vao, self.vbo, self.ebo)
    }
}

impl BackendMeshID {
    #[inline]
    pub fn new(vao: u32, vbo: u32, ebo: u32) -> (r: BackendMeshID)
        ensures
            r@ == (vao, vbo, ebo),
    {
        BackendMeshID { vao, vbo, ebo }
    }

    #[inline]
    pub fn vao(&self) -> (r: u32)
        ensures
            r == self@.0,
    {
        self.vao
    }

    #[inline]
    pub fn vbo(&self) -> (r: u32)
        ensures
            r == self@.1,
    {
        self.vbo
    }

    #[inline]
    pub fn ebo(&self) -> (r: u32)
        ensures
            r == self@.2,
    {
        self.ebo
    }
}

} // verus!
