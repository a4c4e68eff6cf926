//! The loaded model: meshes with expanded vertex data, and the table of
//! decoded textures that the meshes refer to by index.
use crate::geometry::{Vector2, Vector3};
pub use crate::loader::load_from_memory;
use crate::text::ParseError;
use crate::texture::{fits, ImageView, TextureImage2D};
use vstd::prelude::*;

verus! {

/// One corner of one triangle. Tangent and bitangent are zero after
/// loading; a later pass may fill them in.
#[derive(Clone, Copy, Debug, PartialEq, Eq, Structural)]
pub struct Vertex {
    pub position: Vector3,
    pub normal: Vector3,
    pub tex_coords: Vector2,
    pub tangent: Vector3,
    pub bitangent: Vector3,
}

/// The material slot that a texture fills.
#[derive(Clone, Copy, Debug, PartialEq, Eq, Structural, Hash)]
pub enum TextureKind {
    Ambient,
    Diffuse,
    Specular,
    Bump,
    Emission,
}

/// Why a model could not be loaded.
#[derive(Clone, Copy, Debug, PartialEq, Eq, Structural)]
pub enum ModelLoadError {
    /// The buffer is no valid archive, or the data of an entry that the
    /// load needs cannot be read back.
    ArchiveCorrupt,
    /// The object file or a material library is named but not in the
    /// archive.
    EntryNotFound,
    /// No entry of the archive ends in `.obj`.
    NoObjectFile,
    /// The object text or a material text is not UTF-8, or its parser
    /// refused it.
    ParseError(ParseError),
    /// An object does not have exactly one geometry group.
    UnsupportedGeometry,
    /// A geometry group names no material.
    MissingMaterial,
    /// A geometry group names a material that no library declares.
    MaterialNotFound,
    /// A texture entry did not decode to a valid image.
    DecodeError,
    /// A mesh has more vertices, or the model more textures, than a 32-bit
    /// index can address.
    LimitExceeded,
}

/// A decoded texture, under the archive entry name that it was first asked
/// for and the kind of that first request.
#[derive(Clone, Debug)]
pub struct Texture {
    name: String,
    kind: TextureKind,
    data: TextureImage2D,
}

/// A texture as a plain value.
pub struct TextureView {
    pub name: Seq<char>,
    pub kind: TextureKind,
    pub data: ImageView,
}

impl View for Texture {
    type V = TextureView;

    closed spec fn view(&self) -> TextureView {
        TextureView { name: self.name@, kind: self.kind, data: self.data@ }
    }
}

impl Texture {
    /// A texture of the given name and kind over the given image.
    pub fn new(name: String, kind: TextureKind, data: TextureImage2D) -> (r: Texture)
        ensures
            r@ == (TextureView { name: name@, kind, data: data@ }),
    {
        Texture { name, kind, data }
    }

    /// The archive entry name that the image was decoded from.
    pub fn name(&self) -> (r: &str)
        ensures
            r@ == self@.name,
    {
        self.name.as_str()
    }

    /// The kind under which the image was first asked for.
    pub fn kind(&self) -> (r: TextureKind)
        ensures
            r == self@.kind,
    {
        self.kind
    }

    /// The decoded image.
    pub fn data(&self) -> (r: &TextureImage2D)
        ensures
            r@ == self@.data,
    {
        &self.data
    }
}

/// The textures of a list as plain values.
pub open spec fn texture_views(textures: Seq<Texture>) -> Seq<TextureView> {
    textures.map_values(|t: Texture| t@)
}

/// For each texture kind at most one index into the model's texture table.
#[derive(Clone, Copy, Debug, PartialEq, Eq, Structural)]
pub struct TextureRefs {
    ambient: Option<u32>,
    diffuse: Option<u32>,
    specular: Option<u32>,
    bump: Option<u32>,
    emission: Option<u32>,
}

impl TextureRefs {
    spec fn slot(&self, kind: TextureKind) -> Option<u32> {
        match kind {
            TextureKind::Ambient => self.ambient,
            TextureKind::Diffuse => self.diffuse,
            TextureKind::Specular => self.specular,
            TextureKind::Bump => self.bump,
            TextureKind::Emission => self.emission,
        }
    }

    /// References for no kind.
    pub fn new() -> (r: TextureRefs)
        ensures
            r@ == Map::<TextureKind, u32>::empty(),
    {
        TextureRefs { ambient: None, diffuse: None, specular: None, bump: None, emission: None }
    }

    /// The index recorded for `kind`, if any.
    pub fn get(&self, kind: TextureKind) -> (r: Option<u32>)
        ensures
            r == (if self@.contains_key(kind) {
                Some(self@[kind])
            } else {
                None
            }),
    {
        match kind {
            TextureKind::Ambient => self.ambient,
            TextureKind::Diffuse => self.diffuse,
            TextureKind::Specular => self.specular,
            TextureKind::Bump => self.bump,
            TextureKind::Emission => self.emission,
        }
    }

    /// Records `index` for `kind`, in place of what was recorded before.
    pub fn insert(&mut self, kind: TextureKind, index: u32)
        ensures
            final(self)@ == old(self)@.insert(kind, index),
    {
        match kind {
            TextureKind::Ambient => {
                self.ambient = Some(index);
            },
            TextureKind::Diffuse => {
                self.diffuse = Some(index);
            },
            TextureKind::Specular => {
                self.specular = Some(index);
            },
            TextureKind::Bump => {
                self.bump = Some(index);
            },
            TextureKind::Emission => {
                self.emission = Some(index);
            },
        }
    }
}

impl View for TextureRefs {
    type V = Map<TextureKind, u32>;

    closed spec fn view(&self) -> Map<TextureKind, u32> {
        Map::new(|kind: TextureKind| self.slot(kind) is Some, |kind: TextureKind| self.slot(kind)->0)
    }
}

/// A named triangle list: every three consecutive indices form one
/// triangle.
#[derive(Clone, Debug)]
pub struct Mesh {
    name: String,
    vertices: Vec<Vertex>,
    vertex_indices: Vec<u32>,
    texture_indices: TextureRefs,
}

/// A mesh as a plain value.
pub struct MeshView {
    pub name: Seq<char>,
    pub vertices: Seq<Vertex>,
    pub vertex_indices: Seq<u32>,
    pub texture_indices: Map<TextureKind, u32>,
}

impl View for Mesh {
    type V = MeshView;

    closed spec fn view(&self) -> MeshView {
        MeshView {
            name: self.name@,
            vertices: self.vertices@,
            vertex_indices: self.vertex_indices@,
            texture_indices: self.texture_indices@,
        }
    }
}

impl Mesh {
    /// A mesh of the given parts.
    pub fn new(
        name: String,
        vertices: Vec<Vertex>,
        vertex_indices: Vec<u32>,
        texture_indices: TextureRefs,
    ) -> (r: Mesh)
        ensures
            r@ == (MeshView {
                name: name@,
                vertices: vertices@,
                vertex_indices: vertex_indices@,
                texture_indices: texture_indices@,
            }),
    {
        Mesh { name, vertices, vertex_indices, texture_indices }
    }

    /// The name of the object that the mesh was built from.
    pub fn name(&self) -> (r: &str)
        ensures
            r@ == self@.name,
    {
        self.name.as_str()
    }

    /// The vertices, three for each triangle.
    pub fn vertices(&self) -> (r: &[Vertex])
        ensures
            r@ == self@.vertices,
    {
        self.vertices.as_slice()
    }

    /// The triangle list, as indices into the vertices.
    pub fn vertex_indices(&self) -> (r: &[u32])
        ensures
            r@ == self@.vertex_indices,
    {
        self.vertex_indices.as_slice()
    }

    /// The textures of the mesh, as indices into the model's texture table.
    pub fn texture_indices(&self) -> (r: &TextureRefs)
        ensures
            r@ == self@.texture_indices,
    {
        &self.texture_indices
    }
}

/// The meshes of a list as plain values.
pub open spec fn mesh_views(meshes: Seq<Mesh>) -> Seq<MeshView> {
    meshes.map_values(|m: Mesh| m@)
}

/// A loaded model. The flag `gamma_correction` is passed on to the shading
/// stage as it was given.
pub struct Model {
    name: String,
    meshes: Vec<Mesh>,
    textures_loaded: Vec<Texture>,
    pub gamma_correction: bool,
}

/// A model as a plain value.
pub struct ModelView {
    pub name: Seq<char>,
    pub meshes: Seq<MeshView>,
    pub textures_loaded: Seq<TextureView>,
    pub gamma_correction: bool,
}

impl View for Model {
    type V = ModelView;

    closed spec fn view(&self) -> ModelView {
        ModelView {
            name: self.name@,
            meshes: mesh_views(self.meshes@),
            textures_loaded: texture_views(self.textures_loaded@),
            gamma_correction: self.gamma_correction,
        }
    }
}

impl Model {
    /// A model of the given parts.
    pub fn new(
        name: String,
        meshes: Vec<Mesh>,
        textures_loaded: Vec<Texture>,
        gamma_correction: bool,
    ) -> (r: Model)
        ensures
            r@ == (ModelView {
                name: name@,
                meshes: mesh_views(meshes@),
                textures_loaded: texture_views(textures_loaded@),
                gamma_correction,
            }),
    {
        Model { name, meshes, textures_loaded, gamma_correction }
    }

    /// The name that the model was loaded under.
    pub fn name(&self) -> (r: &str)
        ensures
            r@ == self@.name,
    {
        self.name.as_str()
    }

    /// The flag for the shading stage.
    pub fn gamma_correction(&self) -> (r: bool)
        ensures
            r == self@.gamma_correction,
    {
        self.gamma_correction
    }

    /// The meshes, in the order of the objects they were built from.
    pub fn meshes(&self) -> (r: &[Mesh])
        ensures
            mesh_views(r@) == self@.meshes,
    {
        self.meshes.as_slice()
    }

    /// The texture table that the meshes refer to.
    pub fn textures_loaded(&self) -> (r: &[Texture])
        ensures
            texture_views(r@) == self@.textures_loaded,
    {
        self.textures_loaded.as_slice()
    }
}

/// Every vertex index points at a vertex of the mesh, and every texture
/// reference at one of the first `texture_count` textures.
pub open spec fn mesh_well_formed(mesh: MeshView, texture_count: nat) -> bool {
    &&& forall|i: int|
        0 <= i < mesh.vertex_indices.len() ==> (#[trigger] mesh.vertex_indices[i])
            < mesh.vertices.len()
    &&& forall|kind: TextureKind| #[trigger]
        mesh.texture_indices.contains_key(kind) ==> mesh.texture_indices[kind] < texture_count
}

/// No two textures of the table bear the same name.
pub open spec fn names_distinct(textures: Seq<TextureView>) -> bool {
    forall|i: int, j: int|
        0 <= i < j < textures.len() ==> (#[trigger] textures[i]).name != (
        #[trigger] textures[j]).name
}

/// The pixel buffer of every texture fits its dimensions.
pub open spec fn images_well_formed(textures: Seq<TextureView>) -> bool {
    forall|i: int| 0 <= i < textures.len() ==> fits((#[trigger] textures[i]).data)
}

/// Every mesh is well formed against the texture table, and the table holds
/// well-formed images under distinct names.
pub open spec fn model_well_formed(model: ModelView) -> bool {
    &&& forall|i: int|
        0 <= i < model.meshes.len() ==> mesh_well_formed(
            #[trigger] model.meshes[i],
            model.textures_loaded.len(),
        )
    &&& names_distinct(model.textures_loaded)
    &&& images_well_formed(model.textures_loaded)
}

} // verus!
