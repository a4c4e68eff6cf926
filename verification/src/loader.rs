//! The loader: from an archive buffer to a model.
use crate::archive::{archive_names, names_with_suffix, Archive, ArchiveError};
use crate::geometry::{
    faces_in_range, faces_valid, lemma_well_formed_faces, object_views, parse as parse_objects,
    Element, Object, VTNTriple, Vector2, Vector3,
};
use crate::material::{
    parse as parse_materials, search_material_sets, set_views, Material, MaterialSet,
    MaterialView,
};
use crate::model::{
    images_well_formed, mesh_views, mesh_well_formed, model_well_formed, names_distinct,
    texture_views, Mesh, Model, ModelLoadError, ModelView, Texture, TextureKind, TextureRefs,
    TextureView, Vertex,
};
use crate::plan::{
    asked_for, elements_vertices, first_named, groups_face_count, groups_vertices,
    holds_open_image, identity_indices, key_names, lemma_first_named,
    lemma_groups_vertex_count, lemma_library_sets_prefix, lemma_meshes_follow_objects,
    lemma_mesh_step_frame, lemma_objects_plan_prefix, lemma_open_image_stays,
    lemma_same_name_same_index, lemma_slots_plan_after, lemma_table_entries_are_asked_for,
    library_sets, load_inputs, load_plan, material_slot, material_step, mesh_follows_object,
    mesh_step, object_material, object_vertices, objects_plan, open_image_from, slot_index,
    slot_step, slots_plan, text_entry, texture_key, texture_keys, vertex_of, LoadPlan, SlotPlan,
    TextureKey, TABLE_LIMIT,
};
use crate::text::{str_eq, string_from_utf8, views, ParseError};
use crate::texture::{decode, select_format, DecodeError, TextureImage2D};
use vstd::prelude::*;

verus! {

/// The vertex that the attributes of a corner make.
pub fn vertex_from_triple(triple: VTNTriple) -> (r: Vertex)
    ensures
        r == vertex_of(triple),
{
    match triple {
        VTNTriple::V(position) => Vertex {
            position,
            normal: Vector3::zero(),
            tex_coords: Vector2::zero(),
            tangent: Vector3::zero(),
            bitangent: Vector3::zero(),
        },
        VTNTriple::VT(position, tex_coords) => Vertex {
            position,
            normal: Vector3::zero(),
            tex_coords,
            tangent: Vector3::zero(),
            bitangent: Vector3::zero(),
        },
        VTNTriple::VN(position, normal) => Vertex {
            position,
            normal,
            tex_coords: Vector2::zero(),
            tangent: Vector3::zero(),
            bitangent: Vector3::zero(),
        },
        VTNTriple::VTN(position, tex_coords, normal) => Vertex {
            position,
            normal,
            tex_coords,
            tangent: Vector3::zero(),
            bitangent: Vector3::zero(),
        },
    }
}

/// Expands the faces of an object into a flat vertex list: three fresh
/// vertices for each face, in corner order, and nothing for points and
/// lines.
pub fn load_mesh_vertices(object: &Object) -> (r: Vec<Vertex>)
    requires
        faces_in_range(object@),
    ensures
        r@ == object_vertices(object@),
        r@.len() == 3 * groups_face_count(object@.geometry_set),
{
    let ghost groups = object@.geometry_set;
    let mut vertices: Vec<Vertex> = Vec::new();
    let mut j: usize = 0;
    while j < object.geometry_set.len()
        invariant
            j <= object.geometry_set.len(),
            faces_in_range(object@),
            groups == object@.geometry_set,
            vertices@ == groups_vertices(object@, groups.take(j as int)),
        decreases object.geometry_set.len() - j,
    {
        let elements = &object.geometry_set[j].elements;
        let ghost base = vertices@;
        assert(groups[j as int].elements == elements@);
        let mut k: usize = 0;
        while k < elements.len()
            invariant
                k <= elements.len(),
                faces_valid(object@, elements@),
                vertices@ == base + elements_vertices(object@, elements@.take(k as int)),
            decreases elements.len() - k,
        {
            match &elements[k] {
                Element::Face(a, b, c) => {
                    let first = object.get_vtn_triple(*a).unwrap();
                    let second = object.get_vtn_triple(*b).unwrap();
                    let third = object.get_vtn_triple(*c).unwrap();
                    vertices.push(vertex_from_triple(first));
                    vertices.push(vertex_from_triple(second));
                    vertices.push(vertex_from_triple(third));
                },
                _ => {},
            }
            assert(elements@.take(k + 1).drop_last() == elements@.take(k as int));
            k += 1;
        }
        proof {
            assert(elements@.take(elements.len() as int) == elements@);
            assert(groups.take(j + 1).drop_last() == groups.take(j as int));
        }
        j += 1;
    }
    proof {
        assert(groups.take(groups.len() as int) == groups);
        lemma_groups_vertex_count(object@, groups);
    }
    vertices
}

/// The names of a texture table, in table order.
pub open spec fn table_names(textures: Seq<Texture>) -> Seq<Seq<char>> {
    key_names(texture_keys(texture_views(textures)))
}

/// The index as the loader hands it out.
pub open spec fn table_index(position: Option<int>) -> Option<u32> {
    match position {
        Some(i) => Some(i as u32),
        None => None,
    }
}

/// Finds a texture by the archive entry name it was decoded from.
pub fn lookup_texture(textures_loaded: &[Texture], texture_name: &str) -> (r: Option<u32>)
    requires
        textures_loaded@.len() <= u32::MAX + 1,
    ensures
        r == table_index(first_named(table_names(textures_loaded@), texture_name@)),
{
    let ghost names = table_names(textures_loaded@);
    let mut i: usize = 0;
    while i < textures_loaded.len()
        invariant
            i <= textures_loaded.len(),
            textures_loaded@.len() <= u32::MAX + 1,
            names == table_names(textures_loaded@),
            forall|j: int| 0 <= j < i ==> names[j] != texture_name@,
        decreases textures_loaded.len() - i,
    {
        if str_eq(textures_loaded[i].name(), texture_name) {
            proof {
                assert(names[i as int] == texture_name@);
                lemma_first_named(names, texture_name@);
            }
            return Some(i as u32);
        }
        i += 1;
    }
    proof {
        lemma_first_named(names, texture_name@);
    }
    None
}

/// The texture file that a material declares for a slot.
pub fn texture_map(material: &Material, kind: TextureKind) -> (r: Option<&str>)
    ensures
        match r {
            Some(name) => material_slot(material@, kind) == Some(name@),
            None => material_slot(material@, kind) is None,
        },
{
    let slot = match kind {
        TextureKind::Ambient => &material.map_ambient,
        TextureKind::Diffuse => &material.map_diffuse,
        TextureKind::Specular => &material.map_specular,
        TextureKind::Bump => &material.map_bump,
        TextureKind::Emission => &material.map_emission,
    };
    match slot {
        Some(name) => Some(name.as_str()),
        None => None,
    }
}

/// The keys of a texture table, in table order.
pub open spec fn table_keys(textures: Seq<Texture>) -> Seq<TextureKey> {
    texture_keys(texture_views(textures))
}

/// The characters of an optional string slice.
pub open spec fn name_view(name: Option<&str>) -> Option<Seq<char>> {
    match name {
        Some(n) => Some(n@),
        None => None,
    }
}

/// Every reference points at one of the first `texture_count` textures.
pub open spec fn refs_in_range(refs: Map<TextureKind, u32>, texture_count: nat) -> bool {
    forall|kind: TextureKind| #[trigger] refs.contains_key(kind) ==> refs[kind] < texture_count
}

/// Stores a texture under a name that the table does not hold yet, given
/// what the decoder made of its entry: an image is appended to the table
/// and referred to by the mesh at its new index; a decoder error stops the
/// load and changes nothing.
pub fn store_texture(
    textures_loaded: &mut Vec<Texture>,
    mesh_textures: &mut TextureRefs,
    texture_kind: TextureKind,
    file_name: &str,
    decoded: Result<TextureImage2D, DecodeError>,
) -> (r: Result<u32, ModelLoadError>)
    requires
        old(textures_loaded)@.len() <= u32::MAX,
    ensures
        match decoded {
            Ok(image) => {
                &&& r == Ok::<u32, ModelLoadError>(old(textures_loaded)@.len() as u32)
                &&& texture_views(final(textures_loaded)@) == texture_views(
                    old(textures_loaded)@,
                ).push(TextureView { name: file_name@, kind: texture_kind, data: image@ })
                &&& final(mesh_textures)@ == old(mesh_textures)@.insert(
                    texture_kind,
                    old(textures_loaded)@.len() as u32,
                )
            },
            Err(_) => {
                &&& r == Err::<u32, ModelLoadError>(ModelLoadError::DecodeError)
                &&& *final(textures_loaded) == *old(textures_loaded)
                &&& *final(mesh_textures) == *old(mesh_textures)
            },
        },
{
    match decoded {
        Ok(image) => {
            let texture = Texture::new(file_name.to_owned(), texture_kind, image);
            textures_loaded.push(texture);
            let texture_index = (textures_loaded.len() - 1) as u32;
            mesh_textures.insert(texture_kind, texture_index);
            Ok(texture_index)
        },
        Err(_) => Err(ModelLoadError::DecodeError),
    }
}

/// Resolves one texture slot of a material for the mesh under
/// construction.
///
/// Against the plan of the step, an actual step differs in one way only:
/// where the plan appends a texture whose image it leaves open, the decoder
/// may refuse the entry, and the step then fails with `DecodeError`. An
/// entry whose name ends in `.png` is decided by the plan: the step fails
/// exactly where the PNG decoder's outcome is refused, and stores that
/// outcome otherwise. An error leaves table and references as they were.
pub fn load_texture_map(
    archive: &mut Archive,
    textures_loaded: &mut Vec<Texture>,
    mesh_textures: &mut TextureRefs,
    texture_kind: TextureKind,
    texture_name: Option<&str>,
) -> (r: Result<Option<u32>, ModelLoadError>)
    ensures
        final(archive).source() == old(archive).source(),
        ({
            let before = SlotPlan {
                textures: table_keys(old(textures_loaded)@),
                refs: old(mesh_textures)@,
                failure: None,
            };
            let source = old(archive).source();
            let plan = slot_step(before, texture_kind, name_view(texture_name), source);
            match r {
                Ok(index) => {
                    &&& plan.failure is None
                    &&& table_keys(final(textures_loaded)@) == plan.textures
                    &&& final(mesh_textures)@ == plan.refs
                    &&& index == slot_index(before.textures, name_view(texture_name), source)
                },
                Err(error) => {
                    ||| plan.failure == Some(error)
                    ||| error == ModelLoadError::DecodeError && plan.failure is None
                        && plan.textures.len() == before.textures.len() + 1
                        && plan.textures.last().image is None
                },
            }
        }),
        r is Ok ==> {
            &&& old(textures_loaded)@.len() <= final(textures_loaded)@.len()
            &&& texture_views(final(textures_loaded)@).take(old(textures_loaded)@.len() as int)
                == texture_views(old(textures_loaded)@)
            &&& names_distinct(texture_views(old(textures_loaded)@)) ==> names_distinct(
                texture_views(final(textures_loaded)@),
            )
            &&& images_well_formed(texture_views(old(textures_loaded)@)) ==> images_well_formed(
                texture_views(final(textures_loaded)@),
            )
            &&& refs_in_range(old(mesh_textures)@, old(textures_loaded)@.len()) ==> refs_in_range(
                final(mesh_textures)@,
                final(textures_loaded)@.len(),
            )
        },
        r is Err ==> {
            &&& *final(textures_loaded) == *old(textures_loaded)
            &&& *final(mesh_textures) == *old(mesh_textures)
        },
{
    let file_name = match texture_name {
        Some(name) => name,
        None => {
            return Ok(None);
        },
    };
    if textures_loaded.len() as u64 > TABLE_LIMIT {
        return Err(ModelLoadError::LimitExceeded);
    }
    let ghost names = table_names(textures_loaded@);
    proof {
        lemma_first_named(names, file_name@);
    }
    // A texture that is in the table already is not decoded again.
    if let Some(texture_index) = lookup_texture(textures_loaded.as_slice(), file_name) {
        mesh_textures.insert(texture_kind, texture_index);
        return Ok(Some(texture_index));
    }
    let bytes = match archive.open(file_name) {
        Ok(bytes) => bytes,
        Err(ArchiveError::NotFound) => {
            return Ok(None);
        },
        Err(ArchiveError::Corrupt) => {
            return Err(ModelLoadError::ArchiveCorrupt);
        },
    };
    if textures_loaded.len() as u64 >= TABLE_LIMIT {
        return Err(ModelLoadError::LimitExceeded);
    }
    let decoded = decode(select_format(file_name), bytes.as_slice());
    match store_texture(textures_loaded, mesh_textures, texture_kind, file_name, decoded) {
        Ok(texture_index) => {
            proof {
                let before = texture_views(old(textures_loaded)@);
                let after = texture_views(textures_loaded@);
                assert forall|i: int, j: int|
                    0 <= i < j < after.len() && names_distinct(before) implies (#[trigger] after[i]).name
                    != (#[trigger] after[j]).name by {
                    if j < before.len() {
                        assert(after[i] == before[i] && after[j] == before[j]);
                    } else {
                        assert(names[i] == before[i].name);
                    }
                }
            }
            Ok(Some(texture_index))
        },
        Err(error) => Err(error),
    }
}

/// Reads an entry that holds text.
pub fn read_text(archive: &mut Archive, name: &str) -> (r: Result<String, ModelLoadError>)
    ensures
        final(archive).source() == old(archive).source(),
        match r {
            Ok(text) => text_entry(old(archive).source(), name@) == Ok::<
                Seq<char>,
                ModelLoadError,
            >(text@),
            Err(error) => text_entry(old(archive).source(), name@) == Err::<
                Seq<char>,
                ModelLoadError,
            >(error),
        },
{
    match archive.open(name) {
        Ok(bytes) => match string_from_utf8(bytes) {
            Some(text) => Ok(text),
            None => Err(ModelLoadError::ParseError(ParseError { line: None })),
        },
        Err(ArchiveError::NotFound) => Err(ModelLoadError::EntryNotFound),
        Err(ArchiveError::Corrupt) => Err(ModelLoadError::ArchiveCorrupt),
    }
}

/// The index list `0, 1, .., count - 1`.
pub fn identity_index_list(count: u32) -> (r: Vec<u32>)
    ensures
        r@ == identity_indices(count as nat),
{
    let mut indices: Vec<u32> = Vec::new();
    let mut i: u32 = 0;
    while i < count
        invariant
            i <= count,
            indices@ == identity_indices(i as nat),
        decreases count - i,
    {
        indices.push(i);
        i += 1;
    }
    indices
}

/// Builds the mesh of one object and resolves its textures against the
/// table.
///
/// Against the plan of the step, an actual step differs in one way only:
/// where the plan appends a texture whose image it leaves open, the decoder
/// may refuse the entry, and the step then fails with `DecodeError`.
#[verifier::rlimit(40)]
pub fn build_mesh(
    object: &Object,
    material_sets: &[MaterialSet],
    archive: &mut Archive,
    textures_loaded: &mut Vec<Texture>,
) -> (r: Result<Mesh, ModelLoadError>)
    requires
        faces_in_range(object@),
    ensures
        final(archive).source() == old(archive).source(),
        ({
            let before = LoadPlan {
                meshes: seq![],
                textures: table_keys(old(textures_loaded)@),
                failure: None,
            };
            let plan = mesh_step(
                before,
                object@,
                set_views(material_sets@),
                old(archive).source(),
            );
            match r {
                Ok(mesh) => {
                    &&& plan.failure is None
                    &&& plan.meshes == seq![mesh@]
                    &&& table_keys(final(textures_loaded)@) == plan.textures
                },
                Err(error) => {
                    ||| plan.failure == Some(error)
                    ||| error == ModelLoadError::DecodeError && open_image_from(
                        plan.textures,
                        before.textures.len() as int,
                    )
                },
            }
        }),
        r matches Ok(mesh) ==> {
            &&& old(textures_loaded)@.len() <= final(textures_loaded)@.len()
            &&& texture_views(final(textures_loaded)@).take(old(textures_loaded)@.len() as int)
                == texture_views(old(textures_loaded)@)
            &&& mesh_well_formed(mesh@, final(textures_loaded)@.len())
            &&& names_distinct(texture_views(old(textures_loaded)@)) ==> names_distinct(
                texture_views(final(textures_loaded)@),
            )
            &&& images_well_formed(texture_views(old(textures_loaded)@)) ==> images_well_formed(
                texture_views(final(textures_loaded)@),
            )
        },
{
    if object.geometry_set.len() != 1 {
        return Err(ModelLoadError::UnsupportedGeometry);
    }
    let material_name = match &object.geometry_set[0].material_name {
        Some(name) => name,
        None => {
            return Err(ModelLoadError::MissingMaterial);
        },
    };
    let material = match search_material_sets(material_sets, material_name.as_str()) {
        Some(material) => material,
        None => {
            return Err(ModelLoadError::MaterialNotFound);
        },
    };
    let mesh_name = object.name.clone();
    let vertices = load_mesh_vertices(object);
    if vertices.len() > u32::MAX as usize {
        return Err(ModelLoadError::LimitExceeded);
    }
    let vertex_indices = identity_index_list(vertices.len() as u32);
    let mut texture_indices = TextureRefs::new();

    let ghost source = archive.source();
    let ghost table = table_keys(textures_loaded@);
    let ghost start = SlotPlan {
        textures: table,
        refs: Map::<TextureKind, u32>::empty(),
        failure: None,
    };
    let ghost ambient = material_step(start, material@, TextureKind::Ambient, source);
    let ghost diffuse = material_step(ambient, material@, TextureKind::Diffuse, source);
    let ghost specular = material_step(diffuse, material@, TextureKind::Specular, source);
    let ghost bump = material_step(specular, material@, TextureKind::Bump, source);
    let ghost emission = material_step(bump, material@, TextureKind::Emission, source);
    assert(emission == slots_plan(table, material@, source));

    match load_texture_map(
        archive,
        textures_loaded,
        &mut texture_indices,
        TextureKind::Ambient,
        texture_map(material, TextureKind::Ambient),
    ) {
        Ok(_) => {},
        Err(error) => {
            proof {
                lemma_slots_plan_after(table, material@, source, ambient);
                if ambient.failure is None {
                    assert(ambient.textures[ambient.textures.len() - 1].image is None);
                    lemma_open_image_stays(ambient.textures, emission.textures, table.len() as int);
                }
            }
            return Err(error);
        },
    }
    match load_texture_map(
        archive,
        textures_loaded,
        &mut texture_indices,
        TextureKind::Diffuse,
        texture_map(material, TextureKind::Diffuse),
    ) {
        Ok(_) => {},
        Err(error) => {
            proof {
                lemma_slots_plan_after(table, material@, source, diffuse);
                if diffuse.failure is None {
                    assert(diffuse.textures[diffuse.textures.len() - 1].image is None);
                    lemma_open_image_stays(diffuse.textures, emission.textures, table.len() as int);
                }
            }
            return Err(error);
        },
    }
    match load_texture_map(
        archive,
        textures_loaded,
        &mut texture_indices,
        TextureKind::Specular,
        texture_map(material, TextureKind::Specular),
    ) {
        Ok(_) => {},
        Err(error) => {
            proof {
                lemma_slots_plan_after(table, material@, source, specular);
                if specular.failure is None {
                    assert(specular.textures[specular.textures.len() - 1].image is None);
                    lemma_open_image_stays(specular.textures, emission.textures, table.len() as int);
                }
            }
            return Err(error);
        },
    }
    match load_texture_map(
        archive,
        textures_loaded,
        &mut texture_indices,
        TextureKind::Bump,
        texture_map(material, TextureKind::Bump),
    ) {
        Ok(_) => {},
        Err(error) => {
            proof {
                lemma_slots_plan_after(table, material@, source, bump);
                if bump.failure is None {
                    assert(bump.textures[bump.textures.len() - 1].image is None);
                    lemma_open_image_stays(bump.textures, emission.textures, table.len() as int);
                }
            }
            return Err(error);
        },
    }
    match load_texture_map(
        archive,
        textures_loaded,
        &mut texture_indices,
        TextureKind::Emission,
        texture_map(material, TextureKind::Emission),
    ) {
        Ok(_) => {},
        Err(error) => {
            proof {
                lemma_slots_plan_after(table, material@, source, emission);
                if emission.failure is None {
                    assert(emission.textures[emission.textures.len() - 1].image is None);
                    lemma_open_image_stays(emission.textures, emission.textures, table.len() as int);
                }
            }
            return Err(error);
        },
    }
    Ok(Mesh::new(mesh_name, vertices, vertex_indices, texture_indices))
}

/// Builds the meshes of all objects, in order, and the texture table that
/// they share.
pub fn build_meshes(objects: &[Object], material_sets: &[MaterialSet], archive: &mut Archive) -> (r:
    Result<(Vec<Mesh>, Vec<Texture>), ModelLoadError>)
    requires
        forall|i: int| 0 <= i < objects@.len() ==> faces_in_range((#[trigger] objects@[i])@),
    ensures
        final(archive).source() == old(archive).source(),
        ({
            let plan = objects_plan(
                object_views(objects@),
                set_views(material_sets@),
                old(archive).source(),
            );
            match r {
                Ok((meshes, textures)) => {
                    &&& plan.failure is None
                    &&& mesh_views(meshes@) == plan.meshes
                    &&& table_keys(textures@) == plan.textures
                    &&& forall|i: int|
                        0 <= i < meshes@.len() ==> mesh_well_formed(
                            (#[trigger] meshes@[i])@,
                            textures@.len(),
                        )
                    &&& names_distinct(texture_views(textures@))
                    &&& images_well_formed(texture_views(textures@))
                },
                Err(error) => {
                    ||| plan.failure == Some(error)
                    ||| error == ModelLoadError::DecodeError && holds_open_image(plan.textures)
                },
            }
        }),
{
    let ghost all = object_views(objects@);
    let ghost sets = set_views(material_sets@);
    let ghost source = archive.source();
    let mut textures_loaded: Vec<Texture> = Vec::new();
    let mut meshes: Vec<Mesh> = Vec::new();
    let mut i: usize = 0;
    while i < objects.len()
        invariant
            i <= objects.len(),
            all == object_views(objects@),
            sets == set_views(material_sets@),
            source == archive.source(),
            source == old(archive).source(),
            forall|k: int| 0 <= k < objects@.len() ==> faces_in_range((#[trigger] objects@[k])@),
            objects_plan(all.take(i as int), sets, source).failure is None,
            mesh_views(meshes@) == objects_plan(all.take(i as int), sets, source).meshes,
            table_keys(textures_loaded@) == objects_plan(all.take(i as int), sets, source).textures,
            forall|k: int|
                0 <= k < meshes@.len() ==> mesh_well_formed(
                    (#[trigger] meshes@[k])@,
                    textures_loaded@.len(),
                ),
            names_distinct(texture_views(textures_loaded@)),
            images_well_formed(texture_views(textures_loaded@)),
        decreases objects.len() - i,
    {
        let ghost so_far = objects_plan(all.take(i as int), sets, source);
        proof {
            assert(all.take(i + 1).drop_last() == all.take(i as int));
            lemma_mesh_step_frame(so_far, objects@[i as int]@, sets, source);
            lemma_objects_plan_prefix(all, sets, source, i + 1);
        }
        match build_mesh(&objects[i], material_sets, archive, &mut textures_loaded) {
            Ok(mesh) => {
                meshes.push(mesh);
            },
            Err(error) => {
                return Err(error);
            },
        }
        i += 1;
    }
    proof {
        assert(all.take(objects.len() as int) == all);
    }
    Ok((meshes, textures_loaded))
}

/// The least position at which `name` stands in `names`.
pub fn position_of(names: &[String], name: &str) -> (r: Option<usize>)
    ensures
        match r {
            Some(i) => first_named(views(names@), name@) == Some(i as int),
            None => first_named(views(names@), name@) is None,
        },
{
    let ghost all = views(names@);
    let mut i: usize = 0;
    while i < names.len()
        invariant
            i <= names.len(),
            all == views(names@),
            forall|j: int| 0 <= j < i ==> all[j] != name@,
        decreases names.len() - i,
    {
        if str_eq(names[i].as_str(), name) {
            proof {
                assert(all[i as int] == name@);
                lemma_first_named(all, name@);
            }
            return Some(i);
        }
        i += 1;
    }
    proof {
        lemma_first_named(all, name@);
    }
    None
}

/// The material sets of the libraries, as a result over plain values.
pub open spec fn sets_view(r: Result<Vec<MaterialSet>, ModelLoadError>) -> Result<
    Seq<Seq<MaterialView>>,
    ModelLoadError,
> {
    match r {
        Ok(sets) => Ok(set_views(sets@)),
        Err(error) => Err(error),
    }
}

/// Reads and parses the material libraries that an object file names, in
/// the order in which it names them. A library is an entry whose name ends
/// in `.mtl` and is the name that the object file gives.
pub fn load_material_sets(archive: &mut Archive, libraries: &[String]) -> (r: Result<
    Vec<MaterialSet>,
    ModelLoadError,
>)
    ensures
        final(archive).source() == old(archive).source(),
        match archive_names(old(archive).source()) {
            Some(names) => sets_view(r) == library_sets(
                views(libraries@),
                names_with_suffix(names, ".mtl"@),
                old(archive).source(),
            ),
            None => false,
        },
{
    let library_files = archive.filter_by_suffix(".mtl");
    let ghost files = views(library_files@);
    let ghost names = views(libraries@);
    let ghost source = archive.source();
    let mut sets: Vec<MaterialSet> = Vec::new();
    let mut i: usize = 0;
    assert(set_views(sets@) == Seq::<Seq<MaterialView>>::empty());
    while i < libraries.len()
        invariant
            i <= libraries.len(),
            names == views(libraries@),
            files == views(library_files@),
            source == archive.source(),
            source == old(archive).source(),
            archive_names(source) matches Some(all) && files == names_with_suffix(all, ".mtl"@),
            library_sets(names.take(i as int), files, source) == Ok::<
                Seq<Seq<MaterialView>>,
                ModelLoadError,
            >(set_views(sets@)),
        decreases libraries.len() - i,
    {
        proof {
            assert(names.take(i + 1).drop_last() == names.take(i as int));
        }
        if position_of(library_files.as_slice(), libraries[i].as_str()).is_none() {
            proof {
                lemma_library_sets_prefix(names, files, source, i + 1);
            }
            return Err(ModelLoadError::EntryNotFound);
        }
        let text = match read_text(archive, libraries[i].as_str()) {
            Ok(text) => text,
            Err(error) => {
                proof {
                    lemma_library_sets_prefix(names, files, source, i + 1);
                }
                return Err(error);
            },
        };
        let set = match parse_materials(text.as_str()) {
            Ok(set) => set,
            Err(error) => {
                proof {
                    lemma_library_sets_prefix(names, files, source, i + 1);
                }
                return Err(ModelLoadError::ParseError(error));
            },
        };
        let ghost before = sets@;
        sets.push(set);
        assert(set_views(sets@) == set_views(before).push(set@));
        i += 1;
    }
    proof {
        assert(names.take(libraries.len() as int) == names);
    }
    Ok(sets)
}

/// A load's result as a plain value.
pub open spec fn outcome_view(r: Result<Model, ModelLoadError>) -> Result<ModelView, ModelLoadError> {
    match r {
        Ok(model) => Ok(model@),
        Err(error) => Err(error),
    }
}

/// What loading a buffer may come to.
///
/// A model bears the given name and flag, holds the meshes of the plan and a
/// texture table with the keys of the plan, and is well formed. An error is
/// the one at which the plan stops; or it is `DecodeError`, which the plan
/// does not foresee, and which can come only where the plan holds a texture
/// whose image it leaves open.
pub open spec fn is_load_outcome(
    bytes: Seq<u8>,
    model_name: Seq<char>,
    gamma_correction: bool,
    outcome: Result<ModelView, ModelLoadError>,
) -> bool {
    let plan = load_plan(bytes);
    match outcome {
        Ok(model) => {
            &&& plan.failure is None
            &&& model.name == model_name
            &&& model.gamma_correction == gamma_correction
            &&& model.meshes == plan.meshes
            &&& texture_keys(model.textures_loaded) == plan.textures
            &&& model_well_formed(model)
        },
        Err(error) => {
            ||| plan.failure == Some(error)
            ||| error == ModelLoadError::DecodeError && holds_open_image(plan.textures)
        },
    }
}

/// The textures that a table of keys decides, where no image is left open.
pub open spec fn decided_textures(keys: Seq<TextureKey>) -> Seq<TextureView> {
    keys.map_values(|k: TextureKey| TextureView { name: k.name, kind: k.kind, data: k.image->0 })
}

/// A table whose keys leave no image open is the table that the keys
/// decide.
pub proof fn lemma_keys_decide_textures(textures: Seq<TextureView>)
    requires
        !holds_open_image(texture_keys(textures)),
    ensures
        textures == decided_textures(texture_keys(textures)),
{
    let keys = texture_keys(textures);
    assert forall|i: int| 0 <= i < textures.len() implies textures[i] == decided_textures(
        keys,
    )[i] by {
        assert(keys[i].image is Some);
    }
    assert(textures =~= decided_textures(keys));
}

/// Loading is repeatable.
///
/// Two loads of one buffer that both succeed agree on the name, the flag,
/// the meshes with all their vertex data, the name and kind of every
/// texture, and the dimensions and pixels of every texture whose name ends
/// in `.png`. Where the plan leaves no image open, that is where no texture
/// goes to the JPEG decoder, any two loads come to the same result, error
/// or model.
pub proof fn lemma_load_is_repeatable(
    bytes: Seq<u8>,
    model_name: Seq<char>,
    gamma_correction: bool,
    first: Result<ModelView, ModelLoadError>,
    second: Result<ModelView, ModelLoadError>,
)
    requires
        is_load_outcome(bytes, model_name, gamma_correction, first),
        is_load_outcome(bytes, model_name, gamma_correction, second),
    ensures
        match (first, second) {
            (Ok(a), Ok(b)) => {
                &&& a.name == b.name
                &&& a.gamma_correction == b.gamma_correction
                &&& a.meshes == b.meshes
                &&& texture_keys(a.textures_loaded) == texture_keys(b.textures_loaded)
            },
            _ => true,
        },
        !holds_open_image(load_plan(bytes).textures) ==> first == second,
{
    if !holds_open_image(load_plan(bytes).textures) {
        if let Ok(a) = first {
            if let Ok(b) = second {
                lemma_keys_decide_textures(a.textures_loaded);
                lemma_keys_decide_textures(b.textures_loaded);
            }
        }
    }
}

/// Where the plan of a load leaves no image open, the load is decided: it
/// fails with the error at which the plan stops, or succeeds, where the
/// plan does not stop, with the meshes and the textures of the plan.
pub proof fn lemma_load_without_open_images_is_decided(
    bytes: Seq<u8>,
    model_name: Seq<char>,
    gamma_correction: bool,
    outcome: Result<ModelView, ModelLoadError>,
)
    requires
        is_load_outcome(bytes, model_name, gamma_correction, outcome),
        !holds_open_image(load_plan(bytes).textures),
    ensures
        match load_plan(bytes).failure {
            Some(error) => outcome == Err::<ModelView, ModelLoadError>(error),
            None => outcome matches Ok(model) && model == (ModelView {
                name: model_name,
                meshes: load_plan(bytes).meshes,
                textures_loaded: decided_textures(load_plan(bytes).textures),
                gamma_correction,
            }),
        },
{
    if let Ok(model) = outcome {
        lemma_keys_decide_textures(model.textures_loaded);
    }
}

/// The loaded model has a mesh for every object of the object file, and
/// each mesh follows its object.
pub proof fn lemma_loaded_meshes_follow_objects(
    bytes: Seq<u8>,
    model_name: Seq<char>,
    gamma_correction: bool,
    model: ModelView,
)
    requires
        is_load_outcome(bytes, model_name, gamma_correction, Ok(model)),
    ensures
        load_inputs(bytes) matches Ok(inputs) && {
            &&& model.meshes.len() == inputs.objects.len()
            &&& forall|i: int|
                0 <= i < inputs.objects.len() ==> mesh_follows_object(
                    model.meshes[i],
                    #[trigger] inputs.objects[i],
                    inputs.sets,
                    texture_keys(model.textures_loaded),
                )
        },
{
    let inputs = load_inputs(bytes)->Ok_0;
    lemma_meshes_follow_objects(inputs.objects, inputs.sets, bytes);
}

/// Every texture of a loaded model was asked for: the material of some
/// object declares its name, as its file for the kind under which the
/// table holds it.
pub proof fn lemma_loaded_textures_are_asked_for(
    bytes: Seq<u8>,
    model_name: Seq<char>,
    gamma_correction: bool,
    model: ModelView,
)
    requires
        is_load_outcome(bytes, model_name, gamma_correction, Ok(model)),
    ensures
        load_inputs(bytes) matches Ok(inputs) && forall|j: int|
            0 <= j < model.textures_loaded.len() ==> asked_for(
                texture_key(#[trigger] model.textures_loaded[j]),
                inputs.objects,
                inputs.sets,
            ),
{
    let inputs = load_inputs(bytes)->Ok_0;
    let plan = load_plan(bytes);
    lemma_table_entries_are_asked_for(inputs.objects, inputs.sets, bytes);
    assert forall|j: int| 0 <= j < model.textures_loaded.len() implies asked_for(
        texture_key(#[trigger] model.textures_loaded[j]),
        inputs.objects,
        inputs.sets,
    ) by {
        assert(texture_keys(model.textures_loaded)[j] == plan.textures[j]);
    }
}

/// A file is stored once: where the materials of two meshes of a loaded
/// model declare the same file, for whichever kinds, the two references are
/// the same index into the texture table.
pub proof fn lemma_shared_file_shared_index(
    bytes: Seq<u8>,
    model_name: Seq<char>,
    gamma_correction: bool,
    model: ModelView,
    first: int,
    first_kind: TextureKind,
    second: int,
    second_kind: TextureKind,
)
    requires
        is_load_outcome(bytes, model_name, gamma_correction, Ok(model)),
        0 <= first < model.meshes.len(),
        0 <= second < model.meshes.len(),
        model.meshes[first].texture_indices.contains_key(first_kind),
        model.meshes[second].texture_indices.contains_key(second_kind),
        ({
            let inputs = load_inputs(bytes)->Ok_0;
            material_slot(object_material(inputs.objects[first], inputs.sets)->0, first_kind)
                == material_slot(
                object_material(inputs.objects[second], inputs.sets)->0,
                second_kind,
            )
        }),
    ensures
        model.meshes[first].texture_indices[first_kind]
            == model.meshes[second].texture_indices[second_kind],
{
    lemma_loaded_meshes_follow_objects(bytes, model_name, gamma_correction, model);
    lemma_same_name_same_index(model, first, first_kind, second, second_kind);
}

/// No welding: a mesh of a loaded model has three vertices for each face of
/// its object and as many indices, and its index list counts up from zero.
pub proof fn lemma_three_vertices_for_each_face(
    bytes: Seq<u8>,
    model_name: Seq<char>,
    gamma_correction: bool,
    model: ModelView,
    mesh: int,
)
    requires
        is_load_outcome(bytes, model_name, gamma_correction, Ok(model)),
        0 <= mesh < model.meshes.len(),
    ensures
        ({
            let faces = groups_face_count(load_inputs(bytes)->Ok_0.objects[mesh].geometry_set);
            &&& model.meshes[mesh].vertices.len() == 3 * faces
            &&& model.meshes[mesh].vertex_indices.len() == 3 * faces
            &&& forall|k: int|
                0 <= k < 3 * faces ==> (#[trigger] model.meshes[mesh].vertex_indices[k]) == k
        }),
{
    lemma_loaded_meshes_follow_objects(bytes, model_name, gamma_correction, model);
    let inputs = load_inputs(bytes)->Ok_0;
    let object = inputs.objects[mesh];
    lemma_groups_vertex_count(object, object.geometry_set);
}

/// A slot for which the material of an object declares no file leaves the
/// mesh of a loaded model without a reference of that kind.
pub proof fn lemma_undeclared_slot_has_no_reference(
    bytes: Seq<u8>,
    model_name: Seq<char>,
    gamma_correction: bool,
    model: ModelView,
    mesh: int,
    kind: TextureKind,
)
    requires
        is_load_outcome(bytes, model_name, gamma_correction, Ok(model)),
        0 <= mesh < model.meshes.len(),
        ({
            let inputs = load_inputs(bytes)->Ok_0;
            material_slot(object_material(inputs.objects[mesh], inputs.sets)->0, kind) is None
        }),
    ensures
        !model.meshes[mesh].texture_indices.contains_key(kind),
{
    lemma_loaded_meshes_follow_objects(bytes, model_name, gamma_correction, model);
}

/// Loads a model from a zip archive held in memory.
pub fn load_from_memory(buffer: &[u8], model_name: &str, gamma_correction: bool) -> (r: Result<
    Model,
    ModelLoadError,
>)
    ensures
        is_load_outcome(buffer@, model_name@, gamma_correction, outcome_view(r)),
{
    let mut archive = match Archive::new(buffer) {
        Ok(archive) => archive,
        Err(_) => {
            return Err(ModelLoadError::ArchiveCorrupt);
        },
    };
    let obj_file_names = archive.filter_by_suffix(".obj");
    if obj_file_names.len() == 0 {
        return Err(ModelLoadError::NoObjectFile);
    }
    let obj_file = match read_text(&mut archive, obj_file_names[0].as_str()) {
        Ok(text) => text,
        Err(error) => {
            return Err(error);
        },
    };
    let obj_set = match parse_objects(obj_file.as_str()) {
        Ok(set) => set,
        Err(error) => {
            return Err(ModelLoadError::ParseError(error));
        },
    };
    let mtl_sets = match load_material_sets(&mut archive, obj_set.material_libraries.as_slice()) {
        Ok(sets) => sets,
        Err(error) => {
            return Err(error);
        },
    };
    assert forall|i: int| 0 <= i < obj_set.objects@.len() implies faces_in_range(
        (#[trigger] obj_set.objects@[i])@,
    ) by {
        assert(obj_set@.objects[i] == obj_set.objects@[i]@);
        lemma_well_formed_faces(obj_set.objects@[i]@);
    }
    let (meshes, textures_loaded) = match build_meshes(
        obj_set.objects.as_slice(),
        mtl_sets.as_slice(),
        &mut archive,
    ) {
        Ok(built) => built,
        Err(error) => {
            return Err(error);
        },
    };
    let model = Model::new(model_name.to_owned(), meshes, textures_loaded, gamma_correction);
    Ok(model)
}

} // verus!
