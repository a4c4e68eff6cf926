//! Scene geometry: the objects of a Wavefront `.obj` text, each with its
//! attribute tables and its geometry groups of points, lines and faces.
//!
//! Coordinates are carried as the bit patterns of the double-precision
//! numbers that the text holds; a pattern of zero is the number zero.
use crate::text::{optional_view, views, ParseError};
use vstd::prelude::*;
use vstd::string::*;
use vstd::utf8::*;
use wavefront_obj::obj::{ObjSet, Primitive};

verus! {

/// `wavefront_obj::obj::ObjSet`, the parser's own result, carried through
/// as it is.
#[verifier::external_type_specification]
#[verifier::external_body]
pub struct ExObjSet(ObjSet);

/// Three coordinates.
#[derive(Clone, Copy, Debug, PartialEq, Eq, Structural)]
pub struct Vector3 {
    pub x: u64,
    pub y: u64,
    pub z: u64,
}

/// Two coordinates.
#[derive(Clone, Copy, Debug, PartialEq, Eq, Structural)]
pub struct Vector2 {
    pub x: u64,
    pub y: u64,
}

impl Vector3 {
    /// The vector whose coordinates are all zero.
    pub open spec fn spec_zero() -> Vector3 {
        Vector3 { x: 0, y: 0, z: 0 }
    }

    #[verifier::when_used_as_spec(spec_zero)]
    pub fn zero() -> (r: Vector3)
        ensures
            r == Self::spec_zero(),
    {
        Vector3 { x: 0, y: 0, z: 0 }
    }
}

impl Vector2 {
    /// The vector whose coordinates are both zero.
    pub open spec fn spec_zero() -> Vector2 {
        Vector2 { x: 0, y: 0 }
    }

    #[verifier::when_used_as_spec(spec_zero)]
    pub fn zero() -> (r: Vector2)
        ensures
            r == Self::spec_zero(),
    {
        Vector2 { x: 0, y: 0 }
    }
}

/// One corner of an element: an index into the position table, and
/// optionally one into the texture coordinate table and one into the normal
/// table, in that order.
pub type VTNIndex = (usize, Option<usize>, Option<usize>);

/// The attributes of one corner, looked up: position alone, or with texture
/// coordinates, or with a normal, or with both.
#[derive(Clone, Copy, Debug, PartialEq, Eq, Structural)]
pub enum VTNTriple {
    V(Vector3),
    VT(Vector3, Vector2),
    VN(Vector3, Vector3),
    VTN(Vector3, Vector2, Vector3),
}

/// A drawable element of a geometry group.
#[derive(Clone, Copy, Debug, PartialEq, Eq)]
pub enum Element {
    Point(VTNIndex),
    Line(VTNIndex, VTNIndex),
    Face(VTNIndex, VTNIndex, VTNIndex),
}

/// The elements that share one material.
#[derive(Clone, Debug)]
pub struct Geometry {
    pub material_name: Option<String>,
    pub elements: Vec<Element>,
}

/// A geometry group as a plain value.
pub struct GeometryView {
    pub material_name: Option<Seq<char>>,
    pub elements: Seq<Element>,
}

impl View for Geometry {
    type V = GeometryView;

    open spec fn view(&self) -> GeometryView {
        GeometryView { material_name: optional_view(self.material_name), elements: self.elements@ }
    }
}

/// The geometry groups of a list as plain values.
pub open spec fn geometry_views(groups: Seq<Geometry>) -> Seq<GeometryView> {
    groups.map_values(|g: Geometry| g@)
}

/// A named object: its attribute tables, and the geometry groups whose
/// elements index into them.
#[derive(Clone, Debug)]
pub struct Object {
    pub name: String,
    pub vertex_set: Vec<Vector3>,
    pub texture_vertex_set: Vec<Vector2>,
    pub normal_vertex_set: Vec<Vector3>,
    pub geometry_set: Vec<Geometry>,
}

/// An object as a plain value.
pub struct ObjectView {
    pub name: Seq<char>,
    pub vertex_set: Seq<Vector3>,
    pub texture_vertex_set: Seq<Vector2>,
    pub normal_vertex_set: Seq<Vector3>,
    pub geometry_set: Seq<GeometryView>,
}

impl View for Object {
    type V = ObjectView;

    open spec fn view(&self) -> ObjectView {
        ObjectView {
            name: self.name@,
            vertex_set: self.vertex_set@,
            texture_vertex_set: self.texture_vertex_set@,
            normal_vertex_set: self.normal_vertex_set@,
            geometry_set: geometry_views(self.geometry_set@),
        }
    }
}

/// The objects of a list as plain values.
pub open spec fn object_views(objects: Seq<Object>) -> Seq<ObjectView> {
    objects.map_values(|o: Object| o@)
}

/// What an object text declares: the material libraries it names and its
/// objects, both in the order of the text.
#[derive(Clone, Debug)]
pub struct ObjectSet {
    pub material_libraries: Vec<String>,
    pub objects: Vec<Object>,
}

/// An object set as a plain value.
pub struct ObjectSetView {
    pub material_libraries: Seq<Seq<char>>,
    pub objects: Seq<ObjectView>,
}

impl View for ObjectSet {
    type V = ObjectSetView;

    open spec fn view(&self) -> ObjectSetView {
        ObjectSetView {
            material_libraries: views(self.material_libraries@),
            objects: object_views(self.objects@),
        }
    }
}

/// Every index of the corner lies within the object's tables.
pub open spec fn index_valid(object: ObjectView, index: VTNIndex) -> bool {
    &&& index.0 < object.vertex_set.len()
    &&& index.1 matches Some(t) ==> t < object.texture_vertex_set.len()
    &&& index.2 matches Some(n) ==> n < object.normal_vertex_set.len()
}

/// Every corner of the element lies within the object's tables.
pub open spec fn element_valid(object: ObjectView, element: Element) -> bool {
    match element {
        Element::Point(a) => index_valid(object, a),
        Element::Line(a, b) => index_valid(object, a) && index_valid(object, b),
        Element::Face(a, b, c) => index_valid(object, a) && index_valid(object, b) && index_valid(
            object,
            c,
        ),
    }
}

/// Every element of the list lies within the object's tables.
pub open spec fn elements_valid(object: ObjectView, elements: Seq<Element>) -> bool {
    forall|k: int| 0 <= k < elements.len() ==> element_valid(object, #[trigger] elements[k])
}

/// Every element of every geometry group lies within the object's tables.
pub open spec fn object_well_formed(object: ObjectView) -> bool {
    forall|j: int|
        0 <= j < object.geometry_set.len() ==> elements_valid(
            object,
            (#[trigger] object.geometry_set[j]).elements,
        )
}

/// Every corner of the element lies within the object's tables if the
/// element is a face.
pub open spec fn face_valid(object: ObjectView, element: Element) -> bool {
    element is Face ==> element_valid(object, element)
}

/// Every face of the list lies within the object's tables.
pub open spec fn faces_valid(object: ObjectView, elements: Seq<Element>) -> bool {
    forall|k: int| 0 <= k < elements.len() ==> face_valid(object, #[trigger] elements[k])
}

/// Every face of every geometry group lies within the object's tables.
/// This is what expanding the faces needs; points and lines are not read.
pub open spec fn faces_in_range(object: ObjectView) -> bool {
    forall|j: int|
        0 <= j < object.geometry_set.len() ==> faces_valid(
            object,
            (#[trigger] object.geometry_set[j]).elements,
        )
}

/// A well-formed object has its faces in range.
pub proof fn lemma_well_formed_faces(object: ObjectView)
    requires
        object_well_formed(object),
    ensures
        faces_in_range(object),
{
    assert forall|j: int| 0 <= j < object.geometry_set.len() implies faces_valid(
        object,
        (#[trigger] object.geometry_set[j]).elements,
    ) by {
        assert(elements_valid(object, object.geometry_set[j].elements));
    }
}

/// Every object of the set is well formed.
pub open spec fn set_well_formed(set: ObjectSetView) -> bool {
    forall|i: int| 0 <= i < set.objects.len() ==> object_well_formed(#[trigger] set.objects[i])
}

/// The attributes that a corner refers to, or `None` where one of its
/// indices lies outside the object's tables.
pub open spec fn triple_of(object: ObjectView, index: VTNIndex) -> Option<VTNTriple> {
    if !index_valid(object, index) {
        None
    } else {
        let position = object.vertex_set[index.0 as int];
        Some(
            match (index.1, index.2) {
                (None, None) => VTNTriple::V(position),
                (Some(t), None) => VTNTriple::VT(position, object.texture_vertex_set[t as int]),
                (None, Some(n)) => VTNTriple::VN(position, object.normal_vertex_set[n as int]),
                (Some(t), Some(n)) => VTNTriple::VTN(
                    position,
                    object.texture_vertex_set[t as int],
                    object.normal_vertex_set[n as int],
                ),
            },
        )
    }
}

impl Object {
    /// Whether every index of the corner lies within the tables.
    pub fn index_in_range(&self, index: VTNIndex) -> (r: bool)
        ensures
            r == index_valid(self@, index),
    {
        if index.0 >= self.vertex_set.len() {
            return false;
        }
        if let Some(t) = index.1 {
            if t >= self.texture_vertex_set.len() {
                return false;
            }
        }
        if let Some(n) = index.2 {
            if n >= self.normal_vertex_set.len() {
                return false;
            }
        }
        true
    }

    /// Looks up the attributes of a corner.
    pub fn get_vtn_triple(&self, index: VTNIndex) -> (r: Option<VTNTriple>)
        ensures
            r == triple_of(self@, index),
    {
        if !self.index_in_range(index) {
            return None;
        }
        let position = self.vertex_set[index.0];
        Some(
            match (index.1, index.2) {
                (None, None) => VTNTriple::V(position),
                (Some(t), None) => VTNTriple::VT(position, self.texture_vertex_set[t]),
                (None, Some(n)) => VTNTriple::VN(position, self.normal_vertex_set[n]),
                (Some(t), Some(n)) => VTNTriple::VTN(
                    position,
                    self.texture_vertex_set[t],
                    self.normal_vertex_set[n],
                ),
            },
        )
    }

    /// Whether every corner of the element lies within the tables.
    pub fn element_in_range(&self, element: &Element) -> (r: bool)
        ensures
            r == element_valid(self@, *element),
    {
        match element {
            Element::Point(a) => self.index_in_range(*a),
            Element::Line(a, b) => self.index_in_range(*a) && self.index_in_range(*b),
            Element::Face(a, b, c) => self.index_in_range(*a) && self.index_in_range(*b)
                && self.index_in_range(*c),
        }
    }

    /// Whether every face of every geometry group lies within the tables.
    pub fn has_faces_in_range(&self) -> (r: bool)
        ensures
            r == faces_in_range(self@),
    {
        let mut j: usize = 0;
        while j < self.geometry_set.len()
            invariant
                j <= self.geometry_set.len(),
                forall|g: int|
                    0 <= g < j ==> faces_valid(self@, (#[trigger] self@.geometry_set[g]).elements),
            decreases self.geometry_set.len() - j,
        {
            let elements = &self.geometry_set[j].elements;
            let mut k: usize = 0;
            while k < elements.len()
                invariant
                    k <= elements.len(),
                    j < self.geometry_set.len(),
                    self@.geometry_set[j as int].elements == elements@,
                    forall|e: int| 0 <= e < k ==> face_valid(self@, #[trigger] elements@[e]),
                decreases elements.len() - k,
            {
                let in_range = match &elements[k] {
                    Element::Face(_, _, _) => self.element_in_range(&elements[k]),
                    _ => true,
                };
                if !in_range {
                    return false;
                }
                k += 1;
            }
            j += 1;
        }
        true
    }

    /// Whether every element of every geometry group lies within the tables.
    pub fn is_well_formed(&self) -> (r: bool)
        ensures
            r == object_well_formed(self@),
    {
        let mut j: usize = 0;
        while j < self.geometry_set.len()
            invariant
                j <= self.geometry_set.len(),
                forall|g: int|
                    0 <= g < j ==> elements_valid(self@, (#[trigger] self@.geometry_set[g]).elements),
            decreases self.geometry_set.len() - j,
        {
            let elements = &self.geometry_set[j].elements;
            let mut k: usize = 0;
            while k < elements.len()
                invariant
                    k <= elements.len(),
                    j < self.geometry_set.len(),
                    self@.geometry_set[j as int].elements == elements@,
                    forall|e: int| 0 <= e < k ==> element_valid(self@, #[trigger] elements@[e]),
                decreases elements.len() - k,
            {
                if !self.element_in_range(&elements[k]) {
                    return false;
                }
                k += 1;
            }
            j += 1;
        }
        true
    }
}

/// What `wavefront_obj::obj::parse` makes of a text: the object set, or the
/// line number of its error.
pub uninterp spec fn parsed_objects(text: Seq<char>) -> Result<ObjectSetView, usize>;

/// What a parsed set of the outside parser holds.
pub uninterp spec fn obj_set_contents(set: ObjSet) -> ObjectSetView;

/// A raw parse as a plain value.
pub open spec fn raw_objects(raw: Result<ObjSet, usize>) -> Result<ObjectSetView, usize> {
    match raw {
        Ok(set) => Ok(obj_set_contents(set)),
        Err(line) => Err(line),
    }
}

/// Where a scan of an object text stands within the current line.
#[derive(Clone, Copy, Debug, PartialEq, Eq, Structural)]
pub enum LineState {
    /// Nothing but blanks so far.
    Blank,
    /// The line began with the single letter `f` or `l`, which may yet be
    /// the start of a longer word.
    Letter,
    /// The first word of the line is `f` or `l`: what follows are the
    /// corners of a face or of a line.
    Face,
    /// Any other line, and the rest of a line after `#`.
    Other,
}

/// The state of a scan of an object text for overlong negative indices.
#[derive(Clone, Copy, Debug, PartialEq, Eq, Structural)]
pub struct IndexScan {
    pub line: LineState,
    /// The number of digits that have followed the last `-` without a
    /// break, counted up to the limit.
    pub digits: Option<usize>,
    /// A `-` among the corners of a face or line was followed by more
    /// digits than the limit allows.
    pub refused: bool,
}

/// The most digits that may follow a `-` among the corners of a face or
/// line.
pub const INDEX_DIGITS: usize = 9;

pub const NEWLINE: u8 = 0x0a;

pub const TAB: u8 = 0x09;

pub const RETURN: u8 = 0x0d;

pub const SPACE: u8 = 0x20;

pub const HASH: u8 = 0x23;

pub const MINUS: u8 = 0x2d;

pub const DIGIT_ZERO: u8 = 0x30;

pub const DIGIT_NINE: u8 = 0x39;

pub const LETTER_F: u8 = 0x66;

pub const LETTER_L: u8 = 0x6c;

/// The scan before the first byte.
pub open spec fn scan_start() -> IndexScan {
    IndexScan { line: LineState::Blank, digits: None, refused: false }
}

/// The scan after one more byte.
pub open spec fn scan_step(state: IndexScan, byte: u8) -> IndexScan {
    if byte == NEWLINE {
        IndexScan { line: LineState::Blank, digits: None, refused: state.refused }
    } else {
        match state.line {
            LineState::Blank => if byte == SPACE || byte == TAB || byte == RETURN {
                state
            } else if byte == LETTER_F || byte == LETTER_L {
                IndexScan { line: LineState::Letter, digits: None, refused: state.refused }
            } else {
                IndexScan { line: LineState::Other, digits: None, refused: state.refused }
            },
            LineState::Letter => if byte == SPACE || byte == TAB || byte == RETURN {
                IndexScan { line: LineState::Face, digits: None, refused: state.refused }
            } else {
                IndexScan { line: LineState::Other, digits: None, refused: state.refused }
            },
            LineState::Other => state,
            LineState::Face => if byte == HASH {
                IndexScan { line: LineState::Other, digits: None, refused: state.refused }
            } else if byte == MINUS {
                IndexScan { line: LineState::Face, digits: Some(0), refused: state.refused }
            } else if DIGIT_ZERO <= byte <= DIGIT_NINE && state.digits is Some {
                if state.digits->0 >= INDEX_DIGITS {
                    IndexScan { line: LineState::Face, digits: state.digits, refused: true }
                } else {
                    IndexScan {
                        line: LineState::Face,
                        digits: Some((state.digits->0 + 1) as usize),
                        refused: state.refused,
                    }
                }
            } else {
                IndexScan { line: LineState::Face, digits: None, refused: state.refused }
            },
        }
    }
}

/// The scan after all the bytes.
pub open spec fn scan(bytes: Seq<u8>) -> IndexScan
    decreases bytes.len(),
{
    if bytes.len() == 0 {
        scan_start()
    } else {
        scan_step(scan(bytes.drop_last()), bytes.last())
    }
}

/// No index of the text is an overlong negative number: on no line whose
/// first word is `f` or `l` is a `-`, before any `#`, followed by more than
/// [`INDEX_DIGITS`] digits.
///
/// The object parser resolves a negative index by arithmetic that
/// overflows on numbers near the least machine integer. No text that it
/// accepts holds such an index, so a text that holds one is refused
/// before the parser sees it.
pub open spec fn indices_short(text: Seq<char>) -> bool {
    !scan(encode_utf8(text)).refused
}

/// The object set that a text stands for, or the error that refuses it: an
/// error without a line where the text holds an overlong negative index,
/// the parser's own error with its line, or an error without a line where
/// the parser hands out an element that points outside the tables.
pub open spec fn object_set_of(text: Seq<char>) -> Result<ObjectSetView, ParseError> {
    if !indices_short(text) {
        Err(ParseError { line: None })
    } else {
        match parsed_objects(text) {
            Ok(set) => if set_well_formed(set) {
                Ok(set)
            } else {
                Err(ParseError { line: None })
            },
            Err(line) => Err(ParseError { line: Some(line) }),
        }
    }
}

/// One step of the scan.
pub fn scan_next(state: IndexScan, byte: u8) -> (r: IndexScan)
    ensures
        r == scan_step(state, byte),
{
    if byte == NEWLINE {
        return IndexScan { line: LineState::Blank, digits: None, refused: state.refused };
    }
    let blank = byte == SPACE || byte == TAB || byte == RETURN;
    match state.line {
        LineState::Blank => {
            if blank {
                state
            } else if byte == LETTER_F || byte == LETTER_L {
                IndexScan { line: LineState::Letter, digits: None, refused: state.refused }
            } else {
                IndexScan { line: LineState::Other, digits: None, refused: state.refused }
            }
        },
        LineState::Letter => {
            if blank {
                IndexScan { line: LineState::Face, digits: None, refused: state.refused }
            } else {
                IndexScan { line: LineState::Other, digits: None, refused: state.refused }
            }
        },
        LineState::Other => state,
        LineState::Face => {
            if byte == HASH {
                IndexScan { line: LineState::Other, digits: None, refused: state.refused }
            } else if byte == MINUS {
                IndexScan { line: LineState::Face, digits: Some(0), refused: state.refused }
            } else if DIGIT_ZERO <= byte && byte <= DIGIT_NINE {
                match state.digits {
                    Some(count) => {
                        if count >= INDEX_DIGITS {
                            IndexScan { line: LineState::Face, digits: state.digits, refused: true }
                        } else {
                            IndexScan {
                                line: LineState::Face,
                                digits: Some(count + 1),
                                refused: state.refused,
                            }
                        }
                    },
                    None => IndexScan { line: LineState::Face, digits: None, refused: state.refused },
                }
            } else {
                IndexScan { line: LineState::Face, digits: None, refused: state.refused }
            }
        },
    }
}

/// Whether no index of the text is an overlong negative number.
pub fn has_short_indices(text: &str) -> (r: bool)
    ensures
        r == indices_short(text@),
{
    let bytes = text.as_bytes();
    let mut state = IndexScan { line: LineState::Blank, digits: None, refused: false };
    let mut i: usize = 0;
    while i < bytes.len()
        invariant
            i <= bytes.len(),
            bytes@ == encode_utf8(text@),
            state == scan(bytes@.take(i as int)),
        decreases bytes.len() - i,
    {
        assert(bytes@.take(i + 1).drop_last() == bytes@.take(i as int));
        state = scan_next(state, bytes[i]);
        i += 1;
    }
    assert(bytes@.take(bytes.len() as int) == bytes@);
    !state.refused
}

/// A parsed object set as a plain value.
pub open spec fn object_set_result_view(r: Result<ObjectSet, ParseError>) -> Result<
    ObjectSetView,
    ParseError,
> {
    match r {
        Ok(set) => Ok(set@),
        Err(e) => Err(e),
    }
}

/// Parses the text of an object file. Every object of the result is well
/// formed.
pub fn parse(text: &str) -> (r: Result<ObjectSet, ParseError>)
    ensures
        object_set_result_view(r) == object_set_of(text@),
{
    if !has_short_indices(text) {
        return Err(ParseError { line: None });
    }
    let set = match parse_obj_text(text) {
        Ok(set) => set,
        Err(line) => {
            return Err(ParseError { line: Some(line) });
        },
    };
    let ghost contents = obj_set_contents(set);
    let material_libraries = set_material_libraries(&set);
    let count = set_object_count(&set);
    let mut objects: Vec<Object> = Vec::new();
    let mut i: usize = 0;
    while i < count
        invariant
            i <= count,
            count == contents.objects.len(),
            contents == obj_set_contents(set),
            parsed_objects(text@) == Ok::<ObjectSetView, usize>(contents),
            object_views(objects@) == contents.objects.take(i as int),
            forall|k: int| 0 <= k < i ==> object_well_formed(#[trigger] contents.objects[k]),
        decreases count - i,
    {
        let object = read_object(&set, i);
        if !object.is_well_formed() {
            return Err(ParseError { line: None });
        }
        objects.push(object);
        assert(contents.objects.take(i + 1) == contents.objects.take(i as int).push(
            contents.objects[i as int],
        ));
        i += 1;
    }
    assert(contents.objects.take(count as int) == contents.objects);
    let result = ObjectSet { material_libraries, objects };
    Ok(result)
}

/// Copies one object out of a parsed set.
fn read_object(set: &ObjSet, i: usize) -> (r: Object)
    requires
        i < obj_set_contents(*set).objects.len(),
    ensures
        r@ == obj_set_contents(*set).objects[i as int],
{
    let ghost object = obj_set_contents(*set).objects[i as int];
    let name = object_name(set, i);
    let vertex_set = object_vertex_set(set, i);
    let texture_vertex_set = object_texture_vertex_set(set, i);
    let normal_vertex_set = object_normal_vertex_set(set, i);
    let count = object_geometry_count(set, i);
    let mut geometry_set: Vec<Geometry> = Vec::new();
    let mut j: usize = 0;
    while j < count
        invariant
            j <= count,
            i < obj_set_contents(*set).objects.len(),
            object == obj_set_contents(*set).objects[i as int],
            count == object.geometry_set.len(),
            geometry_views(geometry_set@) == object.geometry_set.take(j as int),
        decreases count - j,
    {
        let material_name = geometry_material_name(set, i, j);
        let elements = geometry_elements(set, i, j);
        let geometry = Geometry { material_name, elements };
        geometry_set.push(geometry);
        assert(object.geometry_set.take(j + 1) == object.geometry_set.take(j as int).push(
            object.geometry_set[j as int],
        ));
        j += 1;
    }
    assert(object.geometry_set.take(count as int) == object.geometry_set);
    Object { name, vertex_set, texture_vertex_set, normal_vertex_set, geometry_set }
}

/// Calls `wavefront_obj::obj::parse`. An error comes back as its line
/// number.
///
/// The parser subtracts a negative index from the number of entries read
/// so far without a check, so the text may hold no negative index whose
/// size comes near the least machine integer. With at most
/// [`INDEX_DIGITS`] digits the difference stays within a 32-bit integer
/// for every text that a 32-bit machine can hold.
#[verifier::external_body]
fn parse_obj_text(text: &str) -> (r: Result<ObjSet, usize>)
    requires
        indices_short(text@),
    ensures
        raw_objects(r) == parsed_objects(text@),
{
    wavefront_obj::obj::parse(text).map_err(|e| e.line_number)
}

/// Reads `ObjSet::material_library`: the one library that the parser keeps,
/// as a list of one name, or the empty list.
#[verifier::external_body]
fn set_material_libraries(set: &ObjSet) -> (r: Vec<String>)
    ensures
        views(r@) == obj_set_contents(*set).material_libraries,
{
    set.material_library.iter().cloned().collect()
}

/// The length of `ObjSet::objects`.
#[verifier::external_body]
fn set_object_count(set: &ObjSet) -> (r: usize)
    ensures
        r == obj_set_contents(*set).objects.len(),
{
    set.objects.len()
}

/// Reads `Object::name` of the object at `i`.
#[verifier::external_body]
fn object_name(set: &ObjSet, i: usize) -> (r: String)
    requires
        i < obj_set_contents(*set).objects.len(),
    ensures
        r@ == obj_set_contents(*set).objects[i as int].name,
{
    set.objects[i].name.clone()
}

/// Reads `Object::vertices` of the object at `i`, each coordinate as its bit
/// pattern.
#[verifier::external_body]
fn object_vertex_set(set: &ObjSet, i: usize) -> (r: Vec<Vector3>)
    requires
        i < obj_set_contents(*set).objects.len(),
    ensures
        r@ == obj_set_contents(*set).objects[i as int].vertex_set,
{
    set.objects[i].vertices.iter().map(
        |v| Vector3 { x: v.x.to_bits(), y: v.y.to_bits(), z: v.z.to_bits() },
    ).collect()
}

/// Reads `Object::tex_vertices` of the object at `i`: the first two
/// coordinates of each, as bit patterns.
#[verifier::external_body]
fn object_texture_vertex_set(set: &ObjSet, i: usize) -> (r: Vec<Vector2>)
    requires
        i < obj_set_contents(*set).objects.len(),
    ensures
        r@ == obj_set_contents(*set).objects[i as int].texture_vertex_set,
{
    set.objects[i].tex_vertices.iter().map(
        |t| Vector2 { x: t.u.to_bits(), y: t.v.to_bits() },
    ).collect()
}

/// Reads `Object::normals` of the object at `i`, each coordinate as its bit
/// pattern.
#[verifier::external_body]
fn object_normal_vertex_set(set: &ObjSet, i: usize) -> (r: Vec<Vector3>)
    requires
        i < obj_set_contents(*set).objects.len(),
    ensures
        r@ == obj_set_contents(*set).objects[i as int].normal_vertex_set,
{
    set.objects[i].normals.iter().map(
        |n| Vector3 { x: n.x.to_bits(), y: n.y.to_bits(), z: n.z.to_bits() },
    ).collect()
}

/// The length of `Object::geometry` of the object at `i`.
#[verifier::external_body]
fn object_geometry_count(set: &ObjSet, i: usize) -> (r: usize)
    requires
        i < obj_set_contents(*set).objects.len(),
    ensures
        r == obj_set_contents(*set).objects[i as int].geometry_set.len(),
{
    set.objects[i].geometry.len()
}

/// Reads `Geometry::material_name` of group `j` of the object at `i`.
#[verifier::external_body]
fn geometry_material_name(set: &ObjSet, i: usize, j: usize) -> (r: Option<String>)
    requires
        i < obj_set_contents(*set).objects.len(),
        j < obj_set_contents(*set).objects[i as int].geometry_set.len(),
    ensures
        optional_view(r) == obj_set_contents(*set).objects[i as int].geometry_set[j as int].material_name,
{
    set.objects[i].geometry[j].material_name.clone()
}

/// Reads `Geometry::shapes` of group `j` of the object at `i`: the primitive
/// of each shape, a triangle as a face.
#[verifier::external_body]
fn geometry_elements(set: &ObjSet, i: usize, j: usize) -> (r: Vec<Element>)
    requires
        i < obj_set_contents(*set).objects.len(),
        j < obj_set_contents(*set).objects[i as int].geometry_set.len(),
    ensures
        r@ == obj_set_contents(*set).objects[i as int].geometry_set[j as int].elements,
{
    set.objects[i].geometry[j].shapes.iter().map(
        |s|
            match s.primitive {
                Primitive::Point(a) => Element::Point(a),
                Primitive::Line(a, b) => Element::Line(a, b),
                Primitive::Triangle(a, b, c) => Element::Face(a, b, c),
            },
    ).collect()
}

} // verus!
