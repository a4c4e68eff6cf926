//! What a load comes to, stated over plain values.
//!
//! Everything but the decoding of images is a function of the archive
//! buffer: which entries exist, what the two parsers make of the texts, how
//! faces expand into vertices, and which texture each material slot refers
//! to. The plan of a load is that function. It is written as if every
//! texture entry that is found also decodes; the loader's contracts say how
//! an actual load relates to it.
use crate::archive::{archive_names, names_with_suffix, zip_entry, Entry};
use crate::geometry::{
    object_set_of, triple_of, Element, GeometryView, ObjectView, VTNIndex, VTNTriple, Vector2, Vector3,
};
use crate::material::{material_set_of, search_sets, MaterialView};
use crate::model::{
    model_well_formed, MeshView, ModelLoadError, ModelView, TextureKind, TextureView, Vertex,
};
use crate::text::ParseError;
use crate::texture::{format_of, png_decoding, ImageFormat, ImageView};
use vstd::prelude::*;
use vstd::utf8::*;

verus! {

/// The vertex that the attributes of a corner make: a missing normal or
/// texture coordinate is zero, and so are tangent and bitangent.
pub open spec fn vertex_of(triple: VTNTriple) -> Vertex {
    match triple {
        VTNTriple::V(position) => Vertex {
            position,
            normal: Vector3::zero(),
            tex_coords: Vector2::zero(),
            tangent: Vector3::zero(),
            bitangent: Vector3::zero(),
        },
        VTNTriple::VT(position, tex_coords) => Vertex {
            position,
            normal: Vector3::zero(),
            tex_coords,
            tangent: Vector3::zero(),
            bitangent: Vector3::zero(),
        },
        VTNTriple::VN(position, normal) => Vertex {
            position,
            normal,
            tex_coords: Vector2::zero(),
            tangent: Vector3::zero(),
            bitangent: Vector3::zero(),
        },
        VTNTriple::VTN(position, tex_coords, normal) => Vertex {
            position,
            normal,
            tex_coords,
            tangent: Vector3::zero(),
            bitangent: Vector3::zero(),
        },
    }
}

/// The vertex at a corner of an element.
pub open spec fn corner_vertex(object: ObjectView, index: VTNIndex) -> Vertex
    recommends
        triple_of(object, index) is Some,
{
    vertex_of(triple_of(object, index)->0)
}

/// The vertices that one element contributes: three for a face, in corner
/// order, and none for a point or a line.
pub open spec fn element_vertices(object: ObjectView, element: Element) -> Seq<Vertex> {
    match element {
        Element::Face(a, b, c) => seq![
            corner_vertex(object, a),
            corner_vertex(object, b),
            corner_vertex(object, c),
        ],
        _ => seq![],
    }
}

/// The vertices of a list of elements, element after element.
pub open spec fn elements_vertices(object: ObjectView, elements: Seq<Element>) -> Seq<Vertex>
    decreases elements.len(),
{
    if elements.len() == 0 {
        seq![]
    } else {
        elements_vertices(object, elements.drop_last()) + element_vertices(object, elements.last())
    }
}

/// The vertices of a list of geometry groups, group after group.
pub open spec fn groups_vertices(object: ObjectView, groups: Seq<GeometryView>) -> Seq<Vertex>
    decreases groups.len(),
{
    if groups.len() == 0 {
        seq![]
    } else {
        groups_vertices(object, groups.drop_last()) + elements_vertices(
            object,
            groups.last().elements,
        )
    }
}

/// The expanded vertex list of an object: no vertex is shared between
/// faces.
pub open spec fn object_vertices(object: ObjectView) -> Seq<Vertex> {
    groups_vertices(object, object.geometry_set)
}

/// The number of faces among the elements.
pub open spec fn face_count(elements: Seq<Element>) -> nat
    decreases elements.len(),
{
    if elements.len() == 0 {
        0
    } else {
        face_count(elements.drop_last()) + if elements.last() is Face {
            1nat
        } else {
            0nat
        }
    }
}

/// The number of faces in the geometry groups.
pub open spec fn groups_face_count(groups: Seq<GeometryView>) -> nat
    decreases groups.len(),
{
    if groups.len() == 0 {
        0
    } else {
        groups_face_count(groups.drop_last()) + face_count(groups.last().elements)
    }
}

/// The index list of a mesh with `count` vertices: `0, 1, .., count - 1`.
pub open spec fn identity_indices(count: nat) -> Seq<u32> {
    Seq::new(count, |i: int| i as u32)
}

/// What is decided of an entry of the texture table: the name and kind
/// under which it holds an image, and the image itself where the name calls
/// for the PNG decoder. What the JPEG decoder makes of a stream is not
/// decided by the stream, so the image of any other entry is left open.
pub struct TextureKey {
    pub name: Seq<char>,
    pub kind: TextureKind,
    pub image: Option<ImageView>,
}

/// The key of a texture.
pub open spec fn texture_key(texture: TextureView) -> TextureKey {
    TextureKey {
        name: texture.name,
        kind: texture.kind,
        image: if format_of(texture.name) == ImageFormat::Png {
            Some(texture.data)
        } else {
            None
        },
    }
}

/// The keys of a texture table, in table order.
pub open spec fn texture_keys(textures: Seq<TextureView>) -> Seq<TextureKey> {
    textures.map_values(|t: TextureView| texture_key(t))
}

/// From position `start` on, the table holds an entry whose image is left
/// open.
pub open spec fn open_image_from(keys: Seq<TextureKey>, start: int) -> bool {
    exists|i: int| start <= i < keys.len() && 0 <= i && (#[trigger] keys[i]).image is None
}

/// The table holds an entry whose image is left open.
pub open spec fn holds_open_image(keys: Seq<TextureKey>) -> bool {
    open_image_from(keys, 0)
}

/// The names of a list of keys.
pub open spec fn key_names(keys: Seq<TextureKey>) -> Seq<Seq<char>> {
    keys.map_values(|k: TextureKey| k.name)
}

/// The least position at which `name` stands in `names`.
pub open spec fn first_named(names: Seq<Seq<char>>, name: Seq<char>) -> Option<int>
    decreases names.len(),
{
    if names.len() == 0 {
        None
    } else {
        match first_named(names.drop_last(), name) {
            Some(i) => Some(i),
            None => if names.last() == name {
                Some(names.len() - 1)
            } else {
                None
            },
        }
    }
}

/// The texture file that a material declares for a slot.
pub open spec fn material_slot(material: MaterialView, kind: TextureKind) -> Option<Seq<char>> {
    match kind {
        TextureKind::Ambient => material.map_ambient,
        TextureKind::Diffuse => material.map_diffuse,
        TextureKind::Specular => material.map_specular,
        TextureKind::Bump => material.map_bump,
        TextureKind::Emission => material.map_emission,
    }
}

/// The state of resolving the slots of one material: the keys of the
/// texture table, the references of the mesh under construction, and the
/// error that stopped the load, if one did.
pub struct SlotPlan {
    pub textures: Seq<TextureKey>,
    pub refs: Map<TextureKind, u32>,
    pub failure: Option<ModelLoadError>,
}

/// The most entries that a texture table can have for 32-bit indices to
/// address them all.
pub const TABLE_LIMIT: u64 = 0x1_0000_0000;

/// `plan`, stopped with `error`.
pub open spec fn slot_failure(plan: SlotPlan, error: ModelLoadError) -> SlotPlan {
    SlotPlan { textures: plan.textures, refs: plan.refs, failure: Some(error) }
}

/// Resolves one slot.
///
/// A table that holds more entries than 32-bit indices address stops the
/// load as soon as a slot names a file, and so does a table that is full
/// when an entry is to be appended.
///
///
/// A slot without a file name changes nothing. A name that the table holds
/// already is referred to at its place in the table. Any other name is
/// looked up in the archive: a missing entry leaves the slot empty and an
/// unreadable one stops the load. A readable one is decoded, as PNG where
/// the name ends in `.png`: a PNG stream that does not decode stops the
/// load, and every other entry is appended to the table under this kind and
/// referred to at its new place.
pub open spec fn slot_step(
    plan: SlotPlan,
    kind: TextureKind,
    slot: Option<Seq<char>>,
    bytes: Seq<u8>,
) -> SlotPlan {
    if plan.failure is Some {
        plan
    } else {
        match slot {
            None => plan,
            Some(name) => if plan.textures.len() > TABLE_LIMIT {
                slot_failure(plan, ModelLoadError::LimitExceeded)
            } else {
                match first_named(key_names(plan.textures), name) {
                    Some(index) => SlotPlan {
                        textures: plan.textures,
                        refs: plan.refs.insert(kind, index as u32),
                        failure: None,
                    },
                    None => match zip_entry(bytes, name) {
                        Entry::Absent => plan,
                        Entry::Unreadable => slot_failure(plan, ModelLoadError::ArchiveCorrupt),
                        Entry::Content(data) => if plan.textures.len() >= TABLE_LIMIT {
                            slot_failure(plan, ModelLoadError::LimitExceeded)
                        } else if format_of(name) == ImageFormat::Png {
                            match png_decoding(data) {
                                Err(_) => slot_failure(plan, ModelLoadError::DecodeError),
                                Ok(image) => SlotPlan {
                                    textures: plan.textures.push(
                                        TextureKey { name, kind, image: Some(image) },
                                    ),
                                    refs: plan.refs.insert(kind, plan.textures.len() as u32),
                                    failure: None,
                                },
                            }
                        } else {
                            SlotPlan {
                                textures: plan.textures.push(
                                    TextureKey { name, kind, image: None },
                                ),
                                refs: plan.refs.insert(kind, plan.textures.len() as u32),
                                failure: None,
                            }
                        },
                    },
                }
            },
        }
    }
}

/// The index that resolving a slot yields: the place of the texture in the
/// table, or none where the slot stays empty.
pub open spec fn slot_index(textures: Seq<TextureKey>, slot: Option<Seq<char>>, bytes: Seq<u8>) -> Option<
    u32,
> {
    match slot {
        None => None,
        Some(name) => match first_named(key_names(textures), name) {
            Some(index) => Some(index as u32),
            None => match zip_entry(bytes, name) {
                Entry::Content(_) => Some(textures.len() as u32),
                _ => None,
            },
        },
    }
}

/// Resolves one slot of a material.
pub open spec fn material_step(
    plan: SlotPlan,
    material: MaterialView,
    kind: TextureKind,
    bytes: Seq<u8>,
) -> SlotPlan {
    slot_step(plan, kind, material_slot(material, kind), bytes)
}

/// Resolves the five slots of a material, in the order ambient, diffuse,
/// specular, bump, emission, for a mesh that starts without references.
pub open spec fn slots_plan(textures: Seq<TextureKey>, material: MaterialView, bytes: Seq<u8>) -> SlotPlan {
    let start = SlotPlan { textures, refs: Map::empty(), failure: None };
    let ambient = material_step(start, material, TextureKind::Ambient, bytes);
    let diffuse = material_step(ambient, material, TextureKind::Diffuse, bytes);
    let specular = material_step(diffuse, material, TextureKind::Specular, bytes);
    let bump = material_step(specular, material, TextureKind::Bump, bytes);
    material_step(bump, material, TextureKind::Emission, bytes)
}

/// The state of a load: the meshes built so far, the keys of the texture
/// table, and the error that stopped the load, if one did.
pub struct LoadPlan {
    pub meshes: Seq<MeshView>,
    pub textures: Seq<TextureKey>,
    pub failure: Option<ModelLoadError>,
}

/// A load that stopped with `error` before it built anything.
pub open spec fn failed(error: ModelLoadError) -> LoadPlan {
    LoadPlan { meshes: seq![], textures: seq![], failure: Some(error) }
}

/// `plan`, stopped with `error`.
pub open spec fn stopped(plan: LoadPlan, error: ModelLoadError) -> LoadPlan {
    LoadPlan { meshes: plan.meshes, textures: plan.textures, failure: Some(error) }
}

/// Builds the mesh of one object.
///
/// The object must have exactly one geometry group, the group must name a
/// material, and a library must declare it. The faces are expanded, the
/// index list is the identity, and the material's slots are resolved
/// against the texture table.
pub open spec fn mesh_step(
    plan: LoadPlan,
    object: ObjectView,
    sets: Seq<Seq<MaterialView>>,
    bytes: Seq<u8>,
) -> LoadPlan {
    if plan.failure is Some {
        plan
    } else if object.geometry_set.len() != 1 {
        stopped(plan, ModelLoadError::UnsupportedGeometry)
    } else {
        match object.geometry_set[0].material_name {
            None => stopped(plan, ModelLoadError::MissingMaterial),
            Some(material_name) => match search_sets(sets, material_name) {
                None => stopped(plan, ModelLoadError::MaterialNotFound),
                Some(material) => {
                    let vertices = object_vertices(object);
                    if vertices.len() > u32::MAX {
                        stopped(plan, ModelLoadError::LimitExceeded)
                    } else {
                        let slots = slots_plan(plan.textures, material, bytes);
                        match slots.failure {
                            Some(error) => LoadPlan {
                                meshes: plan.meshes,
                                textures: slots.textures,
                                failure: Some(error),
                            },
                            None => LoadPlan {
                                meshes: plan.meshes.push(
                                    MeshView {
                                        name: object.name,
                                        vertices,
                                        vertex_indices: identity_indices(vertices.len()),
                                        texture_indices: slots.refs,
                                    },
                                ),
                                textures: slots.textures,
                                failure: None,
                            },
                        }
                    }
                },
            },
        }
    }
}

/// Builds the meshes of a list of objects, in order, from an empty texture
/// table.
pub open spec fn objects_plan(
    objects: Seq<ObjectView>,
    sets: Seq<Seq<MaterialView>>,
    bytes: Seq<u8>,
) -> LoadPlan
    decreases objects.len(),
{
    if objects.len() == 0 {
        LoadPlan { meshes: seq![], textures: seq![], failure: None }
    } else {
        mesh_step(objects_plan(objects.drop_last(), sets, bytes), objects.last(), sets, bytes)
    }
}

/// The text stored under a name.
pub open spec fn text_entry(bytes: Seq<u8>, name: Seq<char>) -> Result<Seq<char>, ModelLoadError> {
    match zip_entry(bytes, name) {
        Entry::Absent => Err(ModelLoadError::EntryNotFound),
        Entry::Unreadable => Err(ModelLoadError::ArchiveCorrupt),
        Entry::Content(data) => if valid_utf8(data) {
            Ok(decode_utf8(data))
        } else {
            Err(ModelLoadError::ParseError(ParseError { line: None }))
        },
    }
}

/// The material set of a library that an object file names. The library is
/// looked for among the entries that end in `.mtl`, by its exact name.
pub open spec fn library_set(bytes: Seq<u8>, library_files: Seq<Seq<char>>, library: Seq<char>) -> Result<
    Seq<MaterialView>,
    ModelLoadError,
> {
    if first_named(library_files, library) is None {
        Err(ModelLoadError::EntryNotFound)
    } else {
        match text_entry(bytes, library) {
            Err(error) => Err(error),
            Ok(text) => match material_set_of(text) {
                Err(error) => Err(ModelLoadError::ParseError(error)),
                Ok(set) => Ok(set),
            },
        }
    }
}

/// The material sets of the named libraries, in order; the first library
/// that fails decides the error.
pub open spec fn library_sets(
    libraries: Seq<Seq<char>>,
    library_files: Seq<Seq<char>>,
    bytes: Seq<u8>,
) -> Result<Seq<Seq<MaterialView>>, ModelLoadError>
    decreases libraries.len(),
{
    if libraries.len() == 0 {
        Ok(seq![])
    } else {
        match library_sets(libraries.drop_last(), library_files, bytes) {
            Err(error) => Err(error),
            Ok(sets) => match library_set(bytes, library_files, libraries.last()) {
                Err(error) => Err(error),
                Ok(set) => Ok(sets.push(set)),
            },
        }
    }
}

/// What an archive gives the assembling of meshes to work on: the objects
/// of its object file, and the material sets of the libraries that the
/// object file names.
pub struct LoadInputs {
    pub objects: Seq<ObjectView>,
    pub sets: Seq<Seq<MaterialView>>,
}

/// Reads the object file and its material libraries out of the archive held
/// in `bytes`.
///
/// The object file is the first entry, in directory order, whose name ends
/// in `.obj`. Each library that it declares is the entry of that name among
/// those that end in `.mtl`.
pub open spec fn load_inputs(bytes: Seq<u8>) -> Result<LoadInputs, ModelLoadError> {
    match archive_names(bytes) {
        None => Err(ModelLoadError::ArchiveCorrupt),
        Some(names) => {
            let object_files = names_with_suffix(names, ".obj"@);
            if object_files.len() == 0 {
                Err(ModelLoadError::NoObjectFile)
            } else {
                match text_entry(bytes, object_files[0]) {
                    Err(error) => Err(error),
                    Ok(text) => match object_set_of(text) {
                        Err(error) => Err(ModelLoadError::ParseError(error)),
                        Ok(scene) => match library_sets(
                            scene.material_libraries,
                            names_with_suffix(names, ".mtl"@),
                            bytes,
                        ) {
                            Err(error) => Err(error),
                            Ok(sets) => Ok(LoadInputs { objects: scene.objects, sets }),
                        },
                    },
                }
            }
        },
    }
}

/// The plan of loading the archive held in `bytes`: its inputs are read,
/// and the meshes of its objects are built in order.
pub open spec fn load_plan(bytes: Seq<u8>) -> LoadPlan {
    match load_inputs(bytes) {
        Err(error) => failed(error),
        Ok(inputs) => objects_plan(inputs.objects, inputs.sets, bytes),
    }
}

/// The position that `first_named` gives is the least one that bears the
/// name, and it gives none only where no position bears it.
pub proof fn lemma_first_named(names: Seq<Seq<char>>, name: Seq<char>)
    ensures
        match first_named(names, name) {
            Some(i) => 0 <= i < names.len() && names[i] == name && forall|j: int|
                0 <= j < i ==> names[j] != name,
            None => forall|j: int| 0 <= j < names.len() ==> names[j] != name,
        },
    decreases names.len(),
{
    if names.len() > 0 {
        lemma_first_named(names.drop_last(), name);
        assert(forall|j: int| 0 <= j < names.len() - 1 ==> names.drop_last()[j] == names[j]);
    }
}

/// A list of elements expands into three vertices for each face.
pub proof fn lemma_elements_vertex_count(object: ObjectView, elements: Seq<Element>)
    ensures
        elements_vertices(object, elements).len() == 3 * face_count(elements),
    decreases elements.len(),
{
    if elements.len() > 0 {
        lemma_elements_vertex_count(object, elements.drop_last());
    }
}

/// A list of geometry groups expands into three vertices for each face.
pub proof fn lemma_groups_vertex_count(object: ObjectView, groups: Seq<GeometryView>)
    ensures
        groups_vertices(object, groups).len() == 3 * groups_face_count(groups),
    decreases groups.len(),
{
    if groups.len() > 0 {
        lemma_groups_vertex_count(object, groups.drop_last());
        lemma_elements_vertex_count(object, groups.last().elements);
    }
}

/// Resolving a slot never removes a texture from the table.
pub proof fn lemma_slot_step_grows(
    plan: SlotPlan,
    kind: TextureKind,
    slot: Option<Seq<char>>,
    bytes: Seq<u8>,
)
    ensures
        plan.textures.len() <= slot_step(plan, kind, slot, bytes).textures.len(),
        slot_step(plan, kind, slot, bytes).textures.take(plan.textures.len() as int)
            == plan.textures,
        plan.failure is Some ==> slot_step(plan, kind, slot, bytes) == plan,
{
}

/// A slot that resolves refers to a table entry of its own name, and
/// appends at most one entry.
pub proof fn lemma_slot_refers_to_its_name(
    plan: SlotPlan,
    kind: TextureKind,
    name: Seq<char>,
    bytes: Seq<u8>,
)
    requires
        plan.failure is None,
    ensures
        ({
            let next = slot_step(plan, kind, Some(name), bytes);
            &&& next.textures.len() <= plan.textures.len() + 1
            &&& next.textures.take(plan.textures.len() as int) == plan.textures
            &&& next.failure is None ==> match slot_index(plan.textures, Some(name), bytes) {
                Some(index) => {
                    &&& index < next.textures.len()
                    &&& next.textures[index as int].name == name
                    &&& next.refs == plan.refs.insert(kind, index)
                },
                None => next == plan,
            }
        }),
{
    lemma_first_named(key_names(plan.textures), name);
}

/// Two slots that name the same file refer to the same table entry, and the
/// second leaves the table as it is: a file is stored once, however many
/// slots name it.
pub proof fn lemma_same_file_same_entry(
    plan: SlotPlan,
    first_kind: TextureKind,
    second_kind: TextureKind,
    name: Seq<char>,
    bytes: Seq<u8>,
)
    requires
        plan.failure is None,
    ensures
        ({
            let first = slot_step(plan, first_kind, Some(name), bytes);
            let second = slot_step(first, second_kind, Some(name), bytes);
            first.failure is None && slot_index(plan.textures, Some(name), bytes) is Some ==> {
                &&& second.failure is None
                &&& second.textures == first.textures
                &&& slot_index(first.textures, Some(name), bytes) == slot_index(
                    plan.textures,
                    Some(name),
                    bytes,
                )
                &&& second.refs[second_kind] == first.refs[first_kind]
            }
        }),
{
    let first = slot_step(plan, first_kind, Some(name), bytes);
    let names = key_names(plan.textures);
    lemma_first_named(names, name);
    lemma_first_named(key_names(first.textures), name);
    if first.failure is None && first_named(names, name) is None && slot_index(
        plan.textures,
        Some(name),
        bytes,
    ) is Some {
        let grown = key_names(first.textures);
        assert(forall|j: int| 0 <= j < names.len() ==> grown[j] == names[j]);
    }
}

/// The material of an object's one geometry group: none where the object
/// does not have exactly one group, the group names no material, or no
/// library declares the name.
pub open spec fn object_material(object: ObjectView, sets: Seq<Seq<MaterialView>>) -> Option<
    MaterialView,
> {
    if object.geometry_set.len() != 1 {
        None
    } else {
        match object.geometry_set[0].material_name {
            None => None,
            Some(name) => search_sets(sets, name),
        }
    }
}

/// Every reference points at a table entry that bears the name of the file
/// that the material declares for the kind.
pub open spec fn refs_name_files(
    refs: Map<TextureKind, u32>,
    textures: Seq<TextureKey>,
    material: MaterialView,
) -> bool {
    forall|kind: TextureKind| #[trigger]
        refs.contains_key(kind) ==> {
            &&& refs[kind] < textures.len()
            &&& material_slot(material, kind) == Some(textures[refs[kind] as int].name)
        }
}

/// Resolving a slot of a material keeps the table as a prefix of the new
/// table and keeps every reference on the file that the material declares.
proof fn lemma_material_step_names(
    plan: SlotPlan,
    material: MaterialView,
    kind: TextureKind,
    bytes: Seq<u8>,
)
    requires
        plan.failure is None,
        plan.textures.len() <= u32::MAX + 1,
        refs_name_files(plan.refs, plan.textures, material),
    ensures
        ({
            let next = material_step(plan, material, kind, bytes);
            &&& next.textures.len() <= u32::MAX + 1
            &&& plan.textures.len() <= next.textures.len()
            &&& next.textures.take(plan.textures.len() as int) == plan.textures
            &&& next.failure is None ==> refs_name_files(next.refs, next.textures, material)
        }),
{
    if let Some(name) = material_slot(material, kind) {
        lemma_slot_refers_to_its_name(plan, kind, name, bytes);
    }
}

/// Resolving the five slots of a material keeps the table as a prefix of
/// the new table and puts every reference on the file that the material
/// declares.
proof fn lemma_slots_plan_names(textures: Seq<TextureKey>, material: MaterialView, bytes: Seq<u8>)
    requires
        textures.len() <= u32::MAX + 1,
    ensures
        ({
            let slots = slots_plan(textures, material, bytes);
            &&& slots.textures.len() <= u32::MAX + 1
            &&& textures.len() <= slots.textures.len()
            &&& slots.textures.take(textures.len() as int) == textures
            &&& slots.failure is None ==> refs_name_files(slots.refs, slots.textures, material)
        }),
{
    let start = SlotPlan { textures, refs: Map::empty(), failure: None };
    let ambient = material_step(start, material, TextureKind::Ambient, bytes);
    let diffuse = material_step(ambient, material, TextureKind::Diffuse, bytes);
    let specular = material_step(diffuse, material, TextureKind::Specular, bytes);
    let bump = material_step(specular, material, TextureKind::Bump, bytes);
    lemma_material_step_names(start, material, TextureKind::Ambient, bytes);
    if ambient.failure is None {
        lemma_material_step_names(ambient, material, TextureKind::Diffuse, bytes);
        if diffuse.failure is None {
            lemma_material_step_names(diffuse, material, TextureKind::Specular, bytes);
            if specular.failure is None {
                lemma_material_step_names(specular, material, TextureKind::Bump, bytes);
                if bump.failure is None {
                    lemma_material_step_names(bump, material, TextureKind::Emission, bytes);
                }
            }
        }
    }
}

/// The material declares the entry's name as its file for the entry's
/// kind.
pub open spec fn declares(material: MaterialView, key: TextureKey) -> bool {
    material_slot(material, key.kind) == Some(key.name)
}

/// From position `start` on, every entry of the table is declared by the
/// material.
pub open spec fn declared_from(keys: Seq<TextureKey>, start: int, material: MaterialView) -> bool {
    forall|j: int| start <= j < keys.len() && 0 <= j ==> declares(material, #[trigger] keys[j])
}

/// Some object's material declares the entry's name as its file for the
/// entry's kind.
pub open spec fn asked_for(
    key: TextureKey,
    objects: Seq<ObjectView>,
    sets: Seq<Seq<MaterialView>>,
) -> bool {
    exists|i: int|
        0 <= i < objects.len() && object_material(#[trigger] objects[i], sets) is Some
            && declares(object_material(objects[i], sets)->0, key)
}

/// Resolving a slot of a material appends no entry but one that the
/// material declares.
proof fn lemma_material_step_entries(
    plan: SlotPlan,
    material: MaterialView,
    kind: TextureKind,
    bytes: Seq<u8>,
    start: int,
)
    requires
        0 <= start <= plan.textures.len(),
        declared_from(plan.textures, start, material),
    ensures
        declared_from(material_step(plan, material, kind, bytes).textures, start, material),
{
    let next = material_step(plan, material, kind, bytes);
    assert forall|j: int| start <= j < next.textures.len() && 0 <= j implies declares(
        material,
        #[trigger] next.textures[j],
    ) by {
        if j < plan.textures.len() {
            lemma_slot_step_grows(plan, kind, material_slot(material, kind), bytes);
            assert(next.textures[j] == next.textures.take(plan.textures.len() as int)[j]);
            assert(declares(material, plan.textures[j]));
        }
    }
}

/// Resolving the five slots of a material appends no entry but those that
/// the material declares.
proof fn lemma_slots_plan_entries(textures: Seq<TextureKey>, material: MaterialView, bytes: Seq<u8>)
    ensures
        declared_from(
            slots_plan(textures, material, bytes).textures,
            textures.len() as int,
            material,
        ),
{
    let start = SlotPlan { textures, refs: Map::empty(), failure: None };
    let ambient = material_step(start, material, TextureKind::Ambient, bytes);
    let diffuse = material_step(ambient, material, TextureKind::Diffuse, bytes);
    let specular = material_step(diffuse, material, TextureKind::Specular, bytes);
    let bump = material_step(specular, material, TextureKind::Bump, bytes);
    let n = textures.len() as int;
    lemma_slots_plan_after(textures, material, bytes, ambient);
    lemma_slots_plan_after(textures, material, bytes, diffuse);
    lemma_slots_plan_after(textures, material, bytes, specular);
    lemma_slots_plan_after(textures, material, bytes, bump);
    lemma_material_step_entries(start, material, TextureKind::Ambient, bytes, n);
    lemma_material_step_entries(ambient, material, TextureKind::Diffuse, bytes, n);
    lemma_material_step_entries(diffuse, material, TextureKind::Specular, bytes, n);
    lemma_material_step_entries(specular, material, TextureKind::Bump, bytes, n);
    lemma_material_step_entries(bump, material, TextureKind::Emission, bytes, n);
}

/// Every entry of the texture table was asked for: some object's material
/// declares its name, as its file for the kind under which the table holds
/// it.
pub proof fn lemma_table_entries_are_asked_for(
    objects: Seq<ObjectView>,
    sets: Seq<Seq<MaterialView>>,
    bytes: Seq<u8>,
)
    ensures
        forall|j: int|
            0 <= j < objects_plan(objects, sets, bytes).textures.len() ==> asked_for(
                #[trigger] objects_plan(objects, sets, bytes).textures[j],
                objects,
                sets,
            ),
    decreases objects.len(),
{
    if objects.len() > 0 {
        let before = objects_plan(objects.drop_last(), sets, bytes);
        let plan = objects_plan(objects, sets, bytes);
        let last = objects.last();
        lemma_table_entries_are_asked_for(objects.drop_last(), sets, bytes);
        lemma_mesh_step_grows(before, last, sets, bytes);
        assert forall|j: int| 0 <= j < plan.textures.len() implies asked_for(
            #[trigger] plan.textures[j],
            objects,
            sets,
        ) by {
            if j < before.textures.len() {
                assert(plan.textures[j] == plan.textures.take(before.textures.len() as int)[j]);
                assert(asked_for(before.textures[j], objects.drop_last(), sets));
                let i = choose|i: int|
                    0 <= i < objects.drop_last().len() && object_material(
                        #[trigger] objects.drop_last()[i],
                        sets,
                    ) is Some && declares(
                        object_material(objects.drop_last()[i], sets)->0,
                        before.textures[j],
                    );
                assert(objects[i] == objects.drop_last()[i]);
            } else {
                let material = object_material(last, sets)->0;
                lemma_slots_plan_entries(before.textures, material, bytes);
                assert(objects[objects.len() - 1] == last);
            }
        }
    }
}

/// The mesh is the one that the load builds for the object: it bears the
/// object's name, holds the object's expanded vertices and the identity
/// index list, and each of its texture references points at the table entry
/// that bears the name of the file that the object's material declares for
/// that kind.
pub open spec fn mesh_follows_object(
    mesh: MeshView,
    object: ObjectView,
    sets: Seq<Seq<MaterialView>>,
    textures: Seq<TextureKey>,
) -> bool {
    &&& object_material(object, sets) is Some
    &&& mesh.name == object.name
    &&& mesh.vertices == object_vertices(object)
    &&& mesh.vertices.len() <= u32::MAX
    &&& mesh.vertex_indices == identity_indices(mesh.vertices.len())
    &&& refs_name_files(mesh.texture_indices, textures, object_material(object, sets)->0)
}

/// In a load that does not stop there is a mesh for every object, in the
/// order of the objects, and each mesh follows its object.
pub proof fn lemma_meshes_follow_objects(
    objects: Seq<ObjectView>,
    sets: Seq<Seq<MaterialView>>,
    bytes: Seq<u8>,
)
    requires
        objects_plan(objects, sets, bytes).failure is None,
    ensures
        ({
            let plan = objects_plan(objects, sets, bytes);
            &&& plan.meshes.len() == objects.len()
            &&& plan.textures.len() <= u32::MAX + 1
            &&& forall|i: int|
                0 <= i < objects.len() ==> mesh_follows_object(
                    plan.meshes[i],
                    #[trigger] objects[i],
                    sets,
                    plan.textures,
                )
        }),
    decreases objects.len(),
{
    if objects.len() > 0 {
        let before = objects_plan(objects.drop_last(), sets, bytes);
        let plan = objects_plan(objects, sets, bytes);
        let last = objects.last();
        lemma_mesh_step_grows(before, last, sets, bytes);
        lemma_meshes_follow_objects(objects.drop_last(), sets, bytes);
        let material = object_material(last, sets)->0;
        lemma_slots_plan_names(before.textures, material, bytes);
        assert forall|i: int| 0 <= i < objects.len() implies mesh_follows_object(
            plan.meshes[i],
            #[trigger] objects[i],
            sets,
            plan.textures,
        ) by {
            if i < objects.len() - 1 {
                assert(objects[i] == objects.drop_last()[i]);
            }
        }
    }
}

/// Two references of a well-formed model that point at textures of the same
/// name are the same index.
pub proof fn lemma_same_name_same_index(
    model: ModelView,
    first_mesh: int,
    first_kind: TextureKind,
    second_mesh: int,
    second_kind: TextureKind,
)
    requires
        model_well_formed(model),
        0 <= first_mesh < model.meshes.len(),
        0 <= second_mesh < model.meshes.len(),
        model.meshes[first_mesh].texture_indices.contains_key(first_kind),
        model.meshes[second_mesh].texture_indices.contains_key(second_kind),
        model.textures_loaded[model.meshes[first_mesh].texture_indices[first_kind] as int].name
            == model.textures_loaded[model.meshes[second_mesh].texture_indices[second_kind] as int].name,
    ensures
        model.meshes[first_mesh].texture_indices[first_kind]
            == model.meshes[second_mesh].texture_indices[second_kind],
{
}

/// Building a mesh never removes a texture from the table, and a stopped
/// load stays as it is.
pub proof fn lemma_mesh_step_grows(
    plan: LoadPlan,
    object: ObjectView,
    sets: Seq<Seq<MaterialView>>,
    bytes: Seq<u8>,
)
    ensures
        plan.textures.len() <= mesh_step(plan, object, sets, bytes).textures.len(),
        mesh_step(plan, object, sets, bytes).textures.take(plan.textures.len() as int)
            == plan.textures,
        plan.failure is Some ==> mesh_step(plan, object, sets, bytes) == plan,
{
    if plan.failure is None && object_material(object, sets) is Some {
        lemma_slots_plan_grows(plan.textures, object_material(object, sets)->0, bytes);
    }
}

/// An entry whose image is left open stays in the table when the table is
/// extended.
pub proof fn lemma_open_image_stays(part: Seq<TextureKey>, whole: Seq<TextureKey>, start: int)
    requires
        part.len() <= whole.len(),
        whole.take(part.len() as int) == part,
        open_image_from(part, start),
    ensures
        open_image_from(whole, start),
{
    let i = choose|i: int| start <= i < part.len() && 0 <= i && (#[trigger] part[i]).image is None;
    assert(whole[i] == whole.take(part.len() as int)[i]);
}

/// The state that resolving the slots of a material has reached after any
/// number of them is kept by the slots that follow: its table is a prefix of
/// the final table, and where it has stopped it is the final state.
pub proof fn lemma_slots_plan_after(
    textures: Seq<TextureKey>,
    material: MaterialView,
    bytes: Seq<u8>,
    reached: SlotPlan,
)
    requires
        ({
            let start = SlotPlan { textures, refs: Map::empty(), failure: None };
            let ambient = material_step(start, material, TextureKind::Ambient, bytes);
            let diffuse = material_step(ambient, material, TextureKind::Diffuse, bytes);
            let specular = material_step(diffuse, material, TextureKind::Specular, bytes);
            let bump = material_step(specular, material, TextureKind::Bump, bytes);
            let emission = material_step(bump, material, TextureKind::Emission, bytes);
            reached == ambient || reached == diffuse || reached == specular || reached == bump
                || reached == emission
        }),
    ensures
        ({
            let slots = slots_plan(textures, material, bytes);
            &&& textures.len() <= reached.textures.len() <= slots.textures.len()
            &&& slots.textures.take(reached.textures.len() as int) == reached.textures
            &&& reached.failure is Some ==> slots == reached
        }),
{
    let start = SlotPlan { textures, refs: Map::empty(), failure: None };
    let ambient = material_step(start, material, TextureKind::Ambient, bytes);
    let diffuse = material_step(ambient, material, TextureKind::Diffuse, bytes);
    let specular = material_step(diffuse, material, TextureKind::Specular, bytes);
    let bump = material_step(specular, material, TextureKind::Bump, bytes);
    let emission = material_step(bump, material, TextureKind::Emission, bytes);
    let n = reached.textures.len() as int;
    lemma_slot_step_grows(start, TextureKind::Ambient, material_slot(material, TextureKind::Ambient), bytes);
    lemma_slot_step_grows(ambient, TextureKind::Diffuse, material_slot(material, TextureKind::Diffuse), bytes);
    lemma_slot_step_grows(diffuse, TextureKind::Specular, material_slot(material, TextureKind::Specular), bytes);
    lemma_slot_step_grows(specular, TextureKind::Bump, material_slot(material, TextureKind::Bump), bytes);
    lemma_slot_step_grows(bump, TextureKind::Emission, material_slot(material, TextureKind::Emission), bytes);
    assert(emission.textures.take(emission.textures.len() as int) == emission.textures);
    if reached == bump {
    } else if reached == specular {
        assert(emission.textures.take(n) == emission.textures.take(bump.textures.len() as int).take(n));
    } else if reached == diffuse {
        assert(bump.textures.take(n) == bump.textures.take(specular.textures.len() as int).take(n));
        assert(emission.textures.take(n) == emission.textures.take(bump.textures.len() as int).take(n));
    } else if reached == ambient {
        assert(specular.textures.take(n) == specular.textures.take(diffuse.textures.len() as int).take(n));
        assert(bump.textures.take(n) == bump.textures.take(specular.textures.len() as int).take(n));
        assert(emission.textures.take(n) == emission.textures.take(bump.textures.len() as int).take(n));
    }
}

/// Resolving the five slots of a material keeps the table as a prefix of
/// the new table.
pub proof fn lemma_slots_plan_grows(
    textures: Seq<TextureKey>,
    material: MaterialView,
    bytes: Seq<u8>,
)
    ensures
        textures.len() <= slots_plan(textures, material, bytes).textures.len(),
        slots_plan(textures, material, bytes).textures.take(textures.len() as int) == textures,
{
    let start = SlotPlan { textures, refs: Map::empty(), failure: None };
    let ambient = material_step(start, material, TextureKind::Ambient, bytes);
    let diffuse = material_step(ambient, material, TextureKind::Diffuse, bytes);
    let specular = material_step(diffuse, material, TextureKind::Specular, bytes);
    let bump = material_step(specular, material, TextureKind::Bump, bytes);
    let emission = material_step(bump, material, TextureKind::Emission, bytes);
    let n = textures.len() as int;
    lemma_slot_step_grows(start, TextureKind::Ambient, material_slot(material, TextureKind::Ambient), bytes);
    lemma_slot_step_grows(ambient, TextureKind::Diffuse, material_slot(material, TextureKind::Diffuse), bytes);
    lemma_slot_step_grows(diffuse, TextureKind::Specular, material_slot(material, TextureKind::Specular), bytes);
    lemma_slot_step_grows(specular, TextureKind::Bump, material_slot(material, TextureKind::Bump), bytes);
    lemma_slot_step_grows(bump, TextureKind::Emission, material_slot(material, TextureKind::Emission), bytes);
    assert(diffuse.textures.take(n) == diffuse.textures.take(ambient.textures.len() as int).take(n));
    assert(specular.textures.take(n) == specular.textures.take(diffuse.textures.len() as int).take(n));
    assert(bump.textures.take(n) == bump.textures.take(specular.textures.len() as int).take(n));
    assert(emission.textures.take(n) == emission.textures.take(bump.textures.len() as int).take(n));
}

/// Building a mesh on top of a plan that has not stopped adds to the meshes
/// what building it from no meshes yields, and treats the table alike.
pub proof fn lemma_mesh_step_frame(
    plan: LoadPlan,
    object: ObjectView,
    sets: Seq<Seq<MaterialView>>,
    bytes: Seq<u8>,
)
    requires
        plan.failure is None,
    ensures
        ({
            let alone = mesh_step(
                LoadPlan { meshes: seq![], textures: plan.textures, failure: None },
                object,
                sets,
                bytes,
            );
            mesh_step(plan, object, sets, bytes) == (LoadPlan {
                meshes: plan.meshes + alone.meshes,
                textures: alone.textures,
                failure: alone.failure,
            })
        }),
{
    let start = LoadPlan { meshes: seq![], textures: plan.textures, failure: None };
    let alone = mesh_step(start, object, sets, bytes);
    let whole = mesh_step(plan, object, sets, bytes);
    assert(whole.meshes =~= plan.meshes + alone.meshes);
}

/// Once the plan of a prefix of the objects has stopped, the plan of all of
/// them is that plan; and the table of the whole is never shorter than that
/// of a prefix.
pub proof fn lemma_objects_plan_prefix(
    objects: Seq<ObjectView>,
    sets: Seq<Seq<MaterialView>>,
    bytes: Seq<u8>,
    count: int,
)
    requires
        0 <= count <= objects.len(),
    ensures
        objects_plan(objects.take(count), sets, bytes).textures.len() <= objects_plan(
            objects,
            sets,
            bytes,
        ).textures.len(),
        objects_plan(objects, sets, bytes).textures.take(
            objects_plan(objects.take(count), sets, bytes).textures.len() as int,
        ) == objects_plan(objects.take(count), sets, bytes).textures,
        objects_plan(objects.take(count), sets, bytes).failure is Some ==> objects_plan(
            objects,
            sets,
            bytes,
        ) == objects_plan(objects.take(count), sets, bytes),
    decreases objects.len(),
{
    if count == objects.len() {
        assert(objects.take(count) == objects);
    } else {
        assert(objects.drop_last().take(count) == objects.take(count));
        lemma_objects_plan_prefix(objects.drop_last(), sets, bytes, count);
        lemma_mesh_step_grows(
            objects_plan(objects.drop_last(), sets, bytes),
            objects.last(),
            sets,
            bytes,
        );
        let part = objects_plan(objects.take(count), sets, bytes).textures;
        let before = objects_plan(objects.drop_last(), sets, bytes).textures;
        let whole = objects_plan(objects, sets, bytes).textures;
        assert(whole.take(part.len() as int) == whole.take(before.len() as int).take(
            part.len() as int,
        ));
    }
}

/// Once a prefix of the libraries has failed, all of them fail with the
/// same error.
pub proof fn lemma_library_sets_prefix(
    libraries: Seq<Seq<char>>,
    library_files: Seq<Seq<char>>,
    bytes: Seq<u8>,
    count: int,
)
    requires
        0 <= count <= libraries.len(),
        library_sets(libraries.take(count), library_files, bytes) is Err,
    ensures
        library_sets(libraries, library_files, bytes) == library_sets(
            libraries.take(count),
            library_files,
            bytes,
        ),
    decreases libraries.len(),
{
    if count == libraries.len() {
        assert(libraries.take(count) == libraries);
    } else {
        assert(libraries.drop_last().take(count) == libraries.take(count));
        lemma_library_sets_prefix(libraries.drop_last(), library_files, bytes, count);
    }
}

} // verus!
