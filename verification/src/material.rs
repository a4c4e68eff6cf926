//! Material libraries: the named materials of a Wavefront `.mtl` text, each
//! with the texture files it refers to.
use crate::text::{optional_view, str_eq, ParseError};
use vstd::prelude::*;

verus! {

/// A named material and the texture file of each of its map slots.
#[derive(Clone, Debug)]
pub struct Material {
    pub name: String,
    pub map_ambient: Option<String>,
    pub map_diffuse: Option<String>,
    pub map_specular: Option<String>,
    pub map_bump: Option<String>,
    pub map_emission: Option<String>,
}

/// A material as a plain value.
pub struct MaterialView {
    pub name: Seq<char>,
    pub map_ambient: Option<Seq<char>>,
    pub map_diffuse: Option<Seq<char>>,
    pub map_specular: Option<Seq<char>>,
    pub map_bump: Option<Seq<char>>,
    pub map_emission: Option<Seq<char>>,
}

impl View for Material {
    type V = MaterialView;

    open spec fn view(&self) -> MaterialView {
        MaterialView {
            name: self.name@,
            map_ambient: optional_view(self.map_ambient),
            map_diffuse: optional_view(self.map_diffuse),
            map_specular: optional_view(self.map_specular),
            map_bump: optional_view(self.map_bump),
            map_emission: optional_view(self.map_emission),
        }
    }
}

/// The materials of one library, in the order in which the text declares
/// them.
#[derive(Clone, Debug)]
pub struct MaterialSet {
    pub materials: Vec<Material>,
}

/// The materials of a list as plain values.
pub open spec fn material_views(materials: Seq<Material>) -> Seq<MaterialView> {
    materials.map_values(|m: Material| m@)
}

impl View for MaterialSet {
    type V = Seq<MaterialView>;

    open spec fn view(&self) -> Seq<MaterialView> {
        material_views(self.materials@)
    }
}

/// The libraries of a list as plain values.
pub open spec fn set_views(sets: Seq<MaterialSet>) -> Seq<Seq<MaterialView>> {
    sets.map_values(|s: MaterialSet| s@)
}

/// What `wavefront_obj::mtl::parse` makes of a text: the materials in their
/// declared order, or the line number of its error.
pub uninterp spec fn parsed_materials(text: Seq<char>) -> Result<Seq<MaterialView>, usize>;

/// A raw parse as a plain value.
pub open spec fn raw_materials(raw: Result<Vec<Material>, usize>) -> Result<
    Seq<MaterialView>,
    usize,
> {
    match raw {
        Ok(materials) => Ok(material_views(materials@)),
        Err(line) => Err(line),
    }
}

/// The material set that a text stands for, or the error that refuses it.
pub open spec fn material_set_of(text: Seq<char>) -> Result<Seq<MaterialView>, ParseError> {
    match parsed_materials(text) {
        Ok(materials) => Ok(materials),
        Err(line) => Err(ParseError { line: Some(line) }),
    }
}

/// A parsed set as a plain value.
pub open spec fn set_result_view(r: Result<MaterialSet, ParseError>) -> Result<
    Seq<MaterialView>,
    ParseError,
> {
    match r {
        Ok(set) => Ok(set@),
        Err(e) => Err(e),
    }
}

/// Parses the text of a material library.
pub fn parse(text: &str) -> (r: Result<MaterialSet, ParseError>)
    ensures
        set_result_view(r) == material_set_of(text@),
{
    match parse_mtl_text(text) {
        Ok(materials) => Ok(MaterialSet { materials }),
        Err(line) => Err(ParseError { line: Some(line) }),
    }
}

/// The first material of a list that bears `name`.
pub open spec fn find_material(materials: Seq<MaterialView>, name: Seq<char>) -> Option<
    MaterialView,
>
    decreases materials.len(),
{
    if materials.len() == 0 {
        None
    } else if materials[0].name == name {
        Some(materials[0])
    } else {
        find_material(materials.drop_first(), name)
    }
}

/// The first material that bears `name`, the libraries taken in their given
/// order and each library in its declared order.
pub open spec fn search_sets(sets: Seq<Seq<MaterialView>>, name: Seq<char>) -> Option<
    MaterialView,
>
    decreases sets.len(),
{
    if sets.len() == 0 {
        None
    } else {
        match find_material(sets[0], name) {
            Some(material) => Some(material),
            None => search_sets(sets.drop_first(), name),
        }
    }
}

/// A found material as a plain value.
pub open spec fn found_view(found: Option<&Material>) -> Option<MaterialView> {
    match found {
        Some(material) => Some(material@),
        None => None,
    }
}

/// Looks a material up by its exact name across all libraries: the first
/// match wins.
pub fn search_material_sets<'a>(material_sets: &'a [MaterialSet], material_name: &str) -> (r:
    Option<&'a Material>)
    ensures
        found_view(r) == search_sets(set_views(material_sets@), material_name@),
{
    let ghost sets = set_views(material_sets@);
    let mut i: usize = 0;
    assert(sets.skip(0) == sets);
    while i < material_sets.len()
        invariant
            i <= material_sets.len(),
            sets == set_views(material_sets@),
            search_sets(sets, material_name@) == search_sets(sets.skip(i as int), material_name@),
        decreases material_sets.len() - i,
    {
        let set = &material_sets[i];
        let ghost materials = set@;
        let mut j: usize = 0;
        assert(materials.skip(0) == materials);
        assert(sets.skip(i as int).drop_first() == sets.skip(i + 1));
        while j < set.materials.len()
            invariant
                j <= set.materials.len(),
                materials == material_views(set.materials@),
                sets == set_views(material_sets@),
                sets.skip(i as int).len() > 0,
                sets.skip(i as int)[0] == materials,
                search_sets(sets, material_name@) == search_sets(
                    sets.skip(i as int),
                    material_name@,
                ),
                find_material(materials, material_name@) == find_material(
                    materials.skip(j as int),
                    material_name@,
                ),
            decreases set.materials.len() - j,
        {
            let material = &set.materials[j];
            proof {
                assert(materials.skip(j as int).drop_first() == materials.skip(j + 1));
            }
            if str_eq(material_name, material.name.as_str()) {
                return Some(material);
            }
            j += 1;
        }
        i += 1;
    }
    None
}

/// Calls `wavefront_obj::mtl::parse` and hands out, for each material in
/// the parser's order, its name and its ambient, diffuse, specular and bump
/// map; the parser knows no emission map, so that slot is empty. An error
/// comes back as its line number.
#[verifier::external_body]
fn parse_mtl_text(text: &str) -> (r: Result<Vec<Material>, usize>)
    ensures
        raw_materials(r) == parsed_materials(text@),
{
    let set = wavefront_obj::mtl::parse(text).map_err(|e| e.line_number)?;
    let materials = set.materials.into_iter();
    Ok(materials.map(|m| Material {
        name: m.name,
        map_ambient: m.ambient_map,
        map_diffuse: m.diffuse_map,
        map_specular: m.specular_map,
        map_bump: m.bump_map,
        map_emission: None,
    }).collect())
}

} // verus!
