//! Source locations and the declaration / field data model.

use vstd::prelude::*;

verus! {

/// File identifier: references a source file in the source database.
pub type FileId = usize;

/// A position in a source file. All three coordinates count from zero.
#[derive(Debug, Default, Copy, Clone, PartialEq, Eq, PartialOrd, Ord, Structural)]
pub struct SourceLocation {
    /// Byte offset into the file.
    pub offset: usize,
    /// Line number.
    pub line: usize,
    /// Column number.
    pub column: usize,
}

/// A span of a source file, between two locations of the same file.
#[derive(Debug, Default, Copy, Clone, PartialEq, Eq, Structural)]
pub struct SourceRange {
    pub file: FileId,
    pub start: SourceLocation,
    pub end: SourceLocation,
}

/// A pipeline phase: the payloads that fields and declarations carry in it.
pub trait Annotation {
    type FieldAnnotation: Default + Clone;

    type DeclAnnotation: Default;
}

#[derive(Debug)]
pub struct Comment {
    pub loc: SourceRange,
    pub text: String,
}

#[derive(Debug, Copy, Clone, PartialEq, Eq, Structural)]
pub enum EndiannessValue {
    LittleEndian,
    BigEndian,
}

#[derive(Debug, Copy, Clone)]
pub struct Endianness {
    pub loc: SourceRange,
    pub value: EndiannessValue,
}

/// One member of an enum declaration.
#[derive(Debug)]
pub struct Tag {
    pub id: String,
    pub loc: SourceRange,
    pub value: usize,
}

/// Binds a parent field or a group parameter to a fixed value.
#[derive(Debug, PartialEq, Eq)]
pub struct Constraint {
    pub id: String,
    pub loc: SourceRange,
    pub value: Option<usize>,
    pub tag_id: Option<String>,
}

/// What a field is, apart from its location and its phase payload.
#[derive(Debug, PartialEq, Eq)]
#[allow(inconsistent_fields)]
pub enum FieldDesc {
    Checksum { field_id: String },
    Padding { size: usize },
    Size { field_id: String, width: usize },
    Count { field_id: String, width: usize },
    ElementSize { field_id: String, width: usize },
    Body,
    Payload { size_modifier: Option<String> },
    FixedScalar { width: usize, value: usize },
    FixedEnum { enum_id: String, tag_id: String },
    Reserved { width: usize },
    Array {
        id: String,
        width: Option<usize>,
        type_id: Option<String>,
        size_modifier: Option<String>,
        size: Option<usize>,
    },
    Scalar { id: String, width: usize },
    Typedef { id: String, type_id: String },
    Group { group_id: String, constraints: Vec<Constraint> },
}

pub struct Field<A: Annotation> {
    pub loc: SourceRange,
    pub annot: A::FieldAnnotation,
    pub desc: FieldDesc,
}

#[derive(Debug)]
pub struct TestCase {
    pub loc: SourceRange,
    pub input: String,
}

/// What a declaration is, apart from its location and its phase payload.
#[allow(inconsistent_fields)]
pub enum DeclDesc<A: Annotation> {
    Checksum { id: String, function: String, width: usize },
    CustomField { id: String, width: Option<usize>, function: String },
    Enum { id: String, tags: Vec<Tag>, width: usize },
    Packet {
        id: String,
        constraints: Vec<Constraint>,
        fields: Vec<Field<A>>,
        parent_id: Option<String>,
    },
    Struct {
        id: String,
        constraints: Vec<Constraint>,
        fields: Vec<Field<A>>,
        parent_id: Option<String>,
    },
    Group { id: String, fields: Vec<Field<A>> },
    Test { type_id: String, test_cases: Vec<TestCase> },
}

pub struct Decl<A: Annotation> {
    pub loc: SourceRange,
    pub annot: A::DeclAnnotation,
    pub desc: DeclDesc<A>,
}

/// One compilation unit.
pub struct File<A: Annotation> {
    pub version: String,
    pub file: FileId,
    pub comments: Vec<Comment>,
    pub endianness: Endianness,
    pub declarations: Vec<Decl<A>>,
}

impl SourceLocation {
    /// Whether `starts[line]` is the line start that a forward scan of
    /// `starts` stops at for `offset`: every start up to it is at or before
    /// `offset`, and the next one, if any, lies beyond.
    pub open spec fn scan_stops_at(starts: Seq<usize>, offset: usize, line: int) -> bool {
        &&& 0 <= line < starts.len()
        &&& forall|i: int| 0 <= i <= line ==> #[trigger] starts[i] <= offset
        &&& line + 1 < starts.len() ==> starts[line + 1] > offset
    }

    /// Locates `offset` in a file whose lines start at the byte offsets
    /// `line_starts`. Without a line start at or before `offset` the location
    /// is on line zero, with the offset as its column.
    pub fn new(offset: usize, line_starts: &[usize]) -> (loc: SourceLocation)
        ensures
            loc.offset == offset,
            (line_starts@.len() == 0 || line_starts@[0] > offset) ==> loc.line == 0 && loc.column
                == offset,
            (line_starts@.len() > 0 && line_starts@[0] <= offset) ==> Self::scan_stops_at(
                line_starts@,
                offset,
                loc.line as int,
            ) && loc.column == offset - line_starts@[loc.line as int],
    {
        let mut loc = SourceLocation { offset, line: 0, column: offset };
        let mut line: usize = 0;
        while line < line_starts.len() && line_starts[line] <= offset
            invariant
                0 <= line <= line_starts@.len(),
                loc.offset == offset,
                line == 0 ==> loc.line == 0 && loc.column == offset,
                line > 0 ==> loc.line == line - 1 && loc.column == offset - line_starts@[line - 1],
                forall|i: int| 0 <= i < line ==> #[trigger] line_starts@[i] <= offset,
            decreases line_starts@.len() - line,
        {
            loc = SourceLocation { offset, line, column: offset - line_starts[line] };
            line += 1;
        }
        loc
    }
}

impl Clone for Tag {
    fn clone(&self) -> (r: Self)
        ensures
            r == *self,
    {
        Tag { id: self.id.clone(), loc: self.loc, value: self.value }
    }
}

impl Clone for TestCase {
    fn clone(&self) -> (r: Self)
        ensures
            r == *self,
    {
        TestCase { loc: self.loc, input: self.input.clone() }
    }
}

impl Clone for Comment {
    fn clone(&self) -> (r: Self)
        ensures
            r == *self,
    {
        Comment { loc: self.loc, text: self.text.clone() }
    }
}

/// A copy of an optional identifier.
pub fn clone_optional(id: &Option<String>) -> (r: Option<String>)
    ensures
        r == *id,
{
    match id {
        Some(s) => Some(s.clone()),
        None => None,
    }
}

impl Clone for Constraint {
    fn clone(&self) -> (r: Self)
        ensures
            r == *self,
    {
        Constraint {
            id: self.id.clone(),
            loc: self.loc,
            value: self.value,
            tag_id: clone_optional(&self.tag_id),
        }
    }
}

/// A copy of a list of constraints, in the same order.
pub fn clone_constraints(constraints: &Vec<Constraint>) -> (r: Vec<Constraint>)
    ensures
        r@ == constraints@,
{
    let mut r: Vec<Constraint> = Vec::new();
    let mut k: usize = 0;
    while k < constraints.len()
        invariant
            0 <= k <= constraints@.len(),
            r@ == constraints@.subrange(0, k as int),
        decreases constraints@.len() - k,
    {
        r.push(constraints[k].clone());
        assert(r@ =~= constraints@.subrange(0, k + 1));
        k += 1;
    }
    assert(constraints@.subrange(0, k as int) =~= constraints@);
    r
}

/// A copy of a list of tags, in the same order.
pub fn clone_tags(tags: &Vec<Tag>) -> (r: Vec<Tag>)
    ensures
        r@ == tags@,
{
    let mut r: Vec<Tag> = Vec::new();
    let mut k: usize = 0;
    while k < tags.len()
        invariant
            0 <= k <= tags@.len(),
            r@ == tags@.subrange(0, k as int),
        decreases tags@.len() - k,
    {
        r.push(tags[k].clone());
        assert(r@ =~= tags@.subrange(0, k + 1));
        k += 1;
    }
    assert(tags@.subrange(0, k as int) =~= tags@);
    r
}

/// A copy of a list of test cases, in the same order.
pub fn clone_test_cases(cases: &Vec<TestCase>) -> (r: Vec<TestCase>)
    ensures
        r@ == cases@,
{
    let mut r: Vec<TestCase> = Vec::new();
    let mut k: usize = 0;
    while k < cases.len()
        invariant
            0 <= k <= cases@.len(),
            r@ == cases@.subrange(0, k as int),
        decreases cases@.len() - k,
    {
        r.push(cases[k].clone());
        assert(r@ =~= cases@.subrange(0, k + 1));
        k += 1;
    }
    assert(cases@.subrange(0, k as int) =~= cases@);
    r
}

/// Whether two declarations say the same apart from their fields: they
/// are of one kind, with the same identifiers, widths, tags, constraints
/// and test cases.
pub open spec fn same_description<A: Annotation, B: Annotation>(
    a: DeclDesc<A>,
    b: DeclDesc<B>,
) -> bool {
    match (a, b) {
        (
            DeclDesc::Checksum { id, function, width },
            DeclDesc::Checksum { id: id2, function: function2, width: width2 },
        ) => id == id2 && function == function2 && width == width2,
        (
            DeclDesc::CustomField { id, width, function },
            DeclDesc::CustomField { id: id2, width: width2, function: function2 },
        ) => id == id2 && function == function2 && width == width2,
        (
            DeclDesc::Enum { id, tags, width },
            DeclDesc::Enum { id: id2, tags: tags2, width: width2 },
        ) => id == id2 && tags@ == tags2@ && width == width2,
        (
            DeclDesc::Packet { id, constraints, parent_id, .. },
            DeclDesc::Packet { id: id2, constraints: constraints2, parent_id: parent_id2, .. },
        ) => id == id2 && constraints@ == constraints2@ && parent_id == parent_id2,
        (
            DeclDesc::Struct { id, constraints, parent_id, .. },
            DeclDesc::Struct { id: id2, constraints: constraints2, parent_id: parent_id2, .. },
        ) => id == id2 && constraints@ == constraints2@ && parent_id == parent_id2,
        (DeclDesc::Group { id, .. }, DeclDesc::Group { id: id2, .. }) => id == id2,
        (
            DeclDesc::Test { type_id, test_cases },
            DeclDesc::Test { type_id: type_id2, test_cases: test_cases2 },
        ) => type_id == type_id2 && test_cases@ == test_cases2@,
        _ => false,
    }
}

/// Whether `fields` is the field list that a declaration holds.
pub open spec fn holds_fields<A: Annotation>(desc: DeclDesc<A>, fields: Vec<Field<A>>) -> bool {
    match desc {
        DeclDesc::Packet { fields: own, .. } => own == fields,
        DeclDesc::Struct { fields: own, .. } => own == fields,
        DeclDesc::Group { fields: own, .. } => own == fields,
        _ => false,
    }
}

/// Whether `made` holds the fields `fields` in another phase: as many, in
/// the same order, each at the same range and saying the same.
pub open spec fn same_fields<A: Annotation, B: Annotation>(
    fields: Seq<Field<A>>,
    made: Seq<Field<B>>,
) -> bool {
    &&& made.len() == fields.len()
    &&& forall|k: int|
        0 <= k < fields.len() ==> (#[trigger] made[k]).loc == fields[k].loc
            && fields[k].desc.same_as(made[k].desc)
}

/// The fields `fields` in another phase, each with the default payload.
pub fn annotate_fields_by_default<A: Annotation, B: Annotation>(fields: &[Field<A>]) -> (made: Vec<
    Field<B>,
>)
    ensures
        same_fields(fields@, made@),
{
    let mut made: Vec<Field<B>> = Vec::new();
    let mut k: usize = 0;
    while k < fields.len()
        invariant
            0 <= k <= fields@.len(),
            made@.len() == k,
            forall|j: int|
                0 <= j < k ==> (#[trigger] made@[j]).loc == fields@[j].loc
                    && fields@[j].desc.same_as(made@[j].desc),
        decreases fields@.len() - k,
    {
        made.push(fields[k].annotate(B::FieldAnnotation::default()));
        k += 1;
    }
    made
}

impl FieldDesc {
    /// Whether two fields say the same: they are equal, but that the
    /// constraints of a group field are compared as lists.
    pub open spec fn same_as(&self, other: FieldDesc) -> bool {
        match (*self, other) {
            (
                FieldDesc::Group { group_id, constraints },
                FieldDesc::Group { group_id: group_id2, constraints: constraints2 },
            ) => group_id == group_id2 && constraints@ == constraints2@,
            (FieldDesc::Group { .. }, _) => false,
            (_, FieldDesc::Group { .. }) => false,
            _ => *self == other,
        }
    }

    /// A copy of the field's description.
    pub fn duplicate(&self) -> (r: FieldDesc)
        ensures
            self.same_as(r),
    {
        match self {
            FieldDesc::Checksum { field_id } => FieldDesc::Checksum { field_id: field_id.clone() },
            FieldDesc::Padding { size } => FieldDesc::Padding { size: *size },
            FieldDesc::Size { field_id, width } => FieldDesc::Size {
                field_id: field_id.clone(),
                width: *width,
            },
            FieldDesc::Count { field_id, width } => FieldDesc::Count {
                field_id: field_id.clone(),
                width: *width,
            },
            FieldDesc::ElementSize { field_id, width } => FieldDesc::ElementSize {
                field_id: field_id.clone(),
                width: *width,
            },
            FieldDesc::Body => FieldDesc::Body,
            FieldDesc::Payload { size_modifier } => FieldDesc::Payload {
                size_modifier: clone_optional(size_modifier),
            },
            FieldDesc::FixedScalar { width, value } => FieldDesc::FixedScalar {
                width: *width,
                value: *value,
            },
            FieldDesc::FixedEnum { enum_id, tag_id } => FieldDesc::FixedEnum {
                enum_id: enum_id.clone(),
                tag_id: tag_id.clone(),
            },
            FieldDesc::Reserved { width } => FieldDesc::Reserved { width: *width },
            FieldDesc::Array { id, width, type_id, size_modifier, size } => FieldDesc::Array {
                id: id.clone(),
                width: *width,
                type_id: clone_optional(type_id),
                size_modifier: clone_optional(size_modifier),
                size: *size,
            },
            FieldDesc::Scalar { id, width } => FieldDesc::Scalar { id: id.clone(), width: *width },
            FieldDesc::Typedef { id, type_id } => FieldDesc::Typedef {
                id: id.clone(),
                type_id: type_id.clone(),
            },
            FieldDesc::Group { group_id, constraints } => FieldDesc::Group {
                group_id: group_id.clone(),
                constraints: clone_constraints(constraints),
            },
        }
    }

    /// The identifier of the declaration that gives this field its type:
    /// the enum of a fixed enum field, the element type of an array that
    /// names one, the type of a typedef field.
    pub open spec fn spec_type_id(&self) -> Option<Seq<char>> {
        match self {
            FieldDesc::FixedEnum { enum_id, .. } => Some(enum_id@),
            FieldDesc::Array { type_id: Some(type_id), .. } => Some(type_id@),
            FieldDesc::Typedef { type_id, .. } => Some(type_id@),
            _ => None,
        }
    }

    /// The identifier of the declaration that this field refers to: its
    /// type, or for a group field the group that it expands.
    pub open spec fn spec_reference(&self) -> Option<Seq<char>> {
        match self {
            FieldDesc::Group { group_id, .. } => Some(group_id@),
            _ => self.spec_type_id(),
        }
    }

    /// The identifier of the declaration that gives this field its type.
    pub fn type_id(&self) -> (r: Option<&String>)
        ensures
            r matches Some(s) ==> self.spec_type_id() == Some(s@),
            r is None ==> self.spec_type_id() is None,
    {
        match self {
            FieldDesc::FixedEnum { enum_id, .. } => Some(enum_id),
            FieldDesc::Array { type_id: Some(type_id), .. } => Some(type_id),
            FieldDesc::Typedef { type_id, .. } => Some(type_id),
            _ => None,
        }
    }

    /// The identifier of the declaration that this field refers to.
    pub fn reference(&self) -> (r: Option<&String>)
        ensures
            r matches Some(s) ==> self.spec_reference() == Some(s@),
            r is None ==> self.spec_reference() is None,
    {
        match self {
            FieldDesc::Group { group_id, .. } => Some(group_id),
            _ => self.type_id(),
        }
    }
}

impl<A: Annotation> File<A> {
    /// The declarations of `decls` whose parent identifier is `id`, in
    /// their order.
    pub open spec fn children_of(decls: Seq<Decl<A>>, id: Option<Seq<char>>) -> Seq<Decl<A>> {
        decls.filter(|other: Decl<A>| other.spec_parent_id() == id)
    }

    /// An empty file: no comments, no declarations, and little-endian
    /// until the source says otherwise.
    pub fn new(file: FileId) -> (r: File<A>)
        ensures
            r.file == file,
            r.version@ == "1,0"@,
            r.comments@.len() == 0,
            r.declarations@.len() == 0,
            r.endianness.value == EndiannessValue::LittleEndian,
            r.endianness.loc == (SourceRange {
                file: 0,
                start: SourceLocation { offset: 0, line: 0, column: 0 },
                end: SourceLocation { offset: 0, line: 0, column: 0 },
            }),
    {
        let origin = SourceLocation { offset: 0, line: 0, column: 0 };
        File {
            version: "1,0".to_owned(),
            comments: Vec::new(),
            endianness: Endianness {
                loc: SourceRange { file: 0, start: origin, end: origin },
                value: EndiannessValue::LittleEndian,
            },
            declarations: Vec::new(),
            file,
        }
    }

    /// The children of `decl`: the declarations of the file whose parent
    /// identifier is the identifier of `decl`, in the order of the file.
    pub fn iter_children<'d>(&'d self, decl: &'d Decl<A>) -> (r: Vec<&'d Decl<A>>)
        ensures
            r@.map_values(|d: &Decl<A>| *d) == Self::children_of(
                self.declarations@,
                decl.spec_id(),
            ),
    {
        let id = decl.id_string();
        let ghost wanted = decl.spec_id();
        let ghost pred = |other: Decl<A>| other.spec_parent_id() == wanted;
        let mut r: Vec<&'d Decl<A>> = Vec::new();
        let mut i: usize = 0;
        proof {
            reveal(Seq::filter);
            assert(self.declarations@.subrange(0, 0) =~= Seq::<Decl<A>>::empty());
            assert(r@.map_values(|d: &Decl<A>| *d) =~= Seq::<Decl<A>>::empty());
        }
        while i < self.declarations.len()
            invariant
                0 <= i <= self.declarations@.len(),
                wanted == decl.spec_id(),
                pred == (|other: Decl<A>| other.spec_parent_id() == wanted),
                id matches Some(s) ==> wanted == Some(s@),
                id is None ==> wanted is None,
                r@.map_values(|d: &Decl<A>| *d) == self.declarations@.subrange(0, i as int).filter(
                    pred,
                ),
            decreases self.declarations@.len() - i,
        {
            let other = &self.declarations[i];
            let is_child = match (other.parent_id_string(), id) {
                (Some(p), Some(s)) => *p == *s,
                (None, None) => true,
                _ => false,
            };
            let ghost before = r@;
            if is_child {
                r.push(other);
            }
            proof {
                reveal(Seq::filter);
                let next = self.declarations@.subrange(0, i + 1);
                assert(next.drop_last() =~= self.declarations@.subrange(0, i as int));
                assert(next.last() == *other);
                assert(is_child == pred(*other));
                if is_child {
                    assert(r@.map_values(|d: &Decl<A>| *d) =~= before.map_values(
                        |d: &Decl<A>| *d,
                    ).push(*other));
                }
            }
            i += 1;
        }
        assert(self.declarations@.subrange(0, i as int) =~= self.declarations@);
        r
    }
}

impl<A: Annotation> Decl<A> {
    /// The identifier that the declaration is known by; a test has none.
    pub open spec fn spec_id(&self) -> Option<Seq<char>> {
        match self.desc {
            DeclDesc::Test { .. } => None,
            DeclDesc::Checksum { id, .. } => Some(id@),
            DeclDesc::CustomField { id, .. } => Some(id@),
            DeclDesc::Enum { id, .. } => Some(id@),
            DeclDesc::Packet { id, .. } => Some(id@),
            DeclDesc::Struct { id, .. } => Some(id@),
            DeclDesc::Group { id, .. } => Some(id@),
        }
    }

    /// The identifier of the declaration that a packet or struct inherits from.
    pub open spec fn spec_parent_id(&self) -> Option<Seq<char>> {
        match self.desc {
            DeclDesc::Packet { parent_id: Some(p), .. } => Some(p@),
            DeclDesc::Struct { parent_id: Some(p), .. } => Some(p@),
            _ => None,
        }
    }

    /// The fields of a packet, struct or group, in layout order; none for
    /// the other kinds.
    pub open spec fn spec_fields(&self) -> Seq<Field<A>> {
        match self.desc {
            DeclDesc::Packet { fields, .. } => fields@,
            DeclDesc::Struct { fields, .. } => fields@,
            DeclDesc::Group { fields, .. } => fields@,
            _ => Seq::empty(),
        }
    }

    /// The constraints of a packet or struct; none for the other kinds.
    pub open spec fn spec_constraints(&self) -> Seq<Constraint> {
        match self.desc {
            DeclDesc::Packet { constraints, .. } => constraints@,
            DeclDesc::Struct { constraints, .. } => constraints@,
            _ => Seq::empty(),
        }
    }

    /// The name of the declaration's kind.
    pub open spec fn spec_kind(&self) -> Seq<char> {
        match self.desc {
            DeclDesc::Checksum { .. } => "checksum"@,
            DeclDesc::CustomField { .. } => "custom field"@,
            DeclDesc::Enum { .. } => "enum"@,
            DeclDesc::Packet { .. } => "packet"@,
            DeclDesc::Struct { .. } => "struct"@,
            DeclDesc::Group { .. } => "group"@,
            DeclDesc::Test { .. } => "test"@,
        }
    }

    /// A declaration with the default payload of its phase.
    pub fn new(loc: SourceRange, desc: DeclDesc<A>) -> (decl: Decl<A>)
        ensures
            decl.loc == loc,
            decl.desc == desc,
            call_ensures(A::DeclAnnotation::default, (), decl.annot),
    {
        Decl { loc, annot: A::DeclAnnotation::default(), desc }
    }

    /// Rebuilds the declaration for another phase, with the payload
    /// `annot`. What the declaration says is copied. The fields of a
    /// packet, struct or group are those that `annotate_fields` makes of
    /// the present ones; for the other kinds it is not called.
    pub fn annotate<F, B: Annotation>(&self, annot: B::DeclAnnotation, annotate_fields: F) -> (r:
        Decl<B>) where F: FnOnce(&[Field<A>]) -> Vec<Field<B>>
        requires
            (self.desc is Packet || self.desc is Struct || self.desc is Group) ==> forall|
                fields: &[Field<A>],
            |
                fields@ == self.spec_fields() ==> call_requires(annotate_fields, (fields,)),
        ensures
            r.loc == self.loc,
            r.annot == annot,
            same_description(self.desc, r.desc),
            (self.desc is Packet || self.desc is Struct || self.desc is Group) ==> exists|
                fields: &[Field<A>],
                made: Vec<Field<B>>,
            |
                fields@ == self.spec_fields() && holds_fields(r.desc, made) && call_ensures(
                    annotate_fields,
                    (fields,),
                    made,
                ),
    {
        let desc = match &self.desc {
            DeclDesc::Checksum { id, function, width } => DeclDesc::Checksum {
                id: id.clone(),
                function: function.clone(),
                width: *width,
            },
            DeclDesc::CustomField { id, width, function } => DeclDesc::CustomField {
                id: id.clone(),
                width: *width,
                function: function.clone(),
            },
            DeclDesc::Enum { id, tags, width } => DeclDesc::Enum {
                id: id.clone(),
                tags: clone_tags(tags),
                width: *width,
            },
            DeclDesc::Test { type_id, test_cases } => DeclDesc::Test {
                type_id: type_id.clone(),
                test_cases: clone_test_cases(test_cases),
            },
            DeclDesc::Packet { id, constraints, parent_id, fields } => {
                let made = annotate_fields(fields.as_slice());
                DeclDesc::Packet {
                    id: id.clone(),
                    constraints: clone_constraints(constraints),
                    parent_id: clone_optional(parent_id),
                    fields: made,
                }
            },
            DeclDesc::Struct { id, constraints, parent_id, fields } => {
                let made = annotate_fields(fields.as_slice());
                DeclDesc::Struct {
                    id: id.clone(),
                    constraints: clone_constraints(constraints),
                    parent_id: clone_optional(parent_id),
                    fields: made,
                }
            },
            DeclDesc::Group { id, fields } => {
                let made = annotate_fields(fields.as_slice());
                DeclDesc::Group { id: id.clone(), fields: made }
            },
        };
        Decl { loc: self.loc, desc, annot }
    }

    /// Rebuilds the declaration for another phase with the payload `annot`
    /// and every field with the default payload. Nothing that the
    /// declaration or a field says is changed.
    pub fn annotate_by_default<B: Annotation>(&self, annot: B::DeclAnnotation) -> (r: Decl<B>)
        ensures
            r.loc == self.loc,
            r.annot == annot,
            same_description(self.desc, r.desc),
            same_fields(self.spec_fields(), r.spec_fields()),
            r.spec_id() == self.spec_id(),
            r.spec_parent_id() == self.spec_parent_id(),
            r.spec_constraints() == self.spec_constraints(),
            r.spec_kind() == self.spec_kind(),
    {
        self.annotate(annot, annotate_fields_by_default::<A, B>)
    }

    /// The identifier of the declaration, as it is stored.
    pub fn id_string(&self) -> (r: Option<&String>)
        ensures
            r matches Some(s) ==> self.spec_id() == Some(s@),
            r is None ==> self.spec_id() is None,
    {
        match &self.desc {
            DeclDesc::Test { .. } => None,
            DeclDesc::Checksum { id, .. } => Some(id),
            DeclDesc::CustomField { id, .. } => Some(id),
            DeclDesc::Enum { id, .. } => Some(id),
            DeclDesc::Packet { id, .. } => Some(id),
            DeclDesc::Struct { id, .. } => Some(id),
            DeclDesc::Group { id, .. } => Some(id),
        }
    }

    /// The identifier that the declaration is known by; a test has none.
    pub fn id(&self) -> (r: Option<&str>)
        ensures
            r matches Some(s) ==> self.spec_id() == Some(s@),
            r is None ==> self.spec_id() is None,
    {
        match self.id_string() {
            Some(id) => Some(id.as_str()),
            None => None,
        }
    }

    /// The identifier of the parent, as it is stored.
    pub fn parent_id_string(&self) -> (r: Option<&String>)
        ensures
            r matches Some(s) ==> self.spec_parent_id() == Some(s@),
            r is None ==> self.spec_parent_id() is None,
    {
        match &self.desc {
            DeclDesc::Packet { parent_id: Some(p), .. } => Some(p),
            DeclDesc::Struct { parent_id: Some(p), .. } => Some(p),
            _ => None,
        }
    }

    /// The identifier of the declaration that a packet or struct inherits from.
    pub fn parent_id(&self) -> (r: Option<&str>)
        ensures
            r matches Some(s) ==> self.spec_parent_id() == Some(s@),
            r is None ==> self.spec_parent_id() is None,
    {
        match self.parent_id_string() {
            Some(p) => Some(p.as_str()),
            None => None,
        }
    }

    /// The constraints of a packet or struct; none for the other kinds.
    pub fn constraints(&self) -> (r: &[Constraint])
        ensures
            r@ == self.spec_constraints(),
    {
        match &self.desc {
            DeclDesc::Packet { constraints, .. } => constraints.as_slice(),
            DeclDesc::Struct { constraints, .. } => constraints.as_slice(),
            _ => {
                let none: &[Constraint] = &[];
                none
            },
        }
    }

    /// The fields of a packet, struct or group; none for the other kinds.
    pub fn fields(&self) -> (r: &[Field<A>])
        ensures
            r@ == self.spec_fields(),
    {
        match &self.desc {
            DeclDesc::Packet { fields, .. } => fields.as_slice(),
            DeclDesc::Struct { fields, .. } => fields.as_slice(),
            DeclDesc::Group { fields, .. } => fields.as_slice(),
            _ => {
                let none: &[Field<A>] = &[];
                none
            },
        }
    }

    /// The name of the declaration's kind.
    pub fn kind(&self) -> (r: &str)
        ensures
            r@ == self.spec_kind(),
    {
        match &self.desc {
            DeclDesc::Checksum { .. } => "checksum",
            DeclDesc::CustomField { .. } => "custom field",
            DeclDesc::Enum { .. } => "enum",
            DeclDesc::Packet { .. } => "packet",
            DeclDesc::Struct { .. } => "struct",
            DeclDesc::Group { .. } => "group",
            DeclDesc::Test { .. } => "test",
        }
    }
}

impl<A: Annotation> Field<A> {
    /// The identifier of a named field: an array, a scalar or a typedef.
    pub open spec fn spec_id(&self) -> Option<Seq<char>> {
        match self.desc {
            FieldDesc::Array { id, .. } => Some(id@),
            FieldDesc::Scalar { id, .. } => Some(id@),
            FieldDesc::Typedef { id, .. } => Some(id@),
            _ => None,
        }
    }

    /// The name of the field's kind. A checksum field is listed with the
    /// payloads, and both fixed forms share one name.
    pub open spec fn spec_kind(&self) -> Seq<char> {
        match self.desc {
            FieldDesc::Checksum { .. } => "payload"@,
            FieldDesc::Padding { .. } => "padding"@,
            FieldDesc::Size { .. } => "size"@,
            FieldDesc::Count { .. } => "count"@,
            FieldDesc::ElementSize { .. } => "elementsize"@,
            FieldDesc::Body => "body"@,
            FieldDesc::Payload { .. } => "payload"@,
            FieldDesc::FixedScalar { .. } => "fixed"@,
            FieldDesc::FixedEnum { .. } => "fixed"@,
            FieldDesc::Reserved { .. } => "reserved"@,
            FieldDesc::Group { .. } => "group"@,
            FieldDesc::Array { .. } => "array"@,
            FieldDesc::Scalar { .. } => "scalar"@,
            FieldDesc::Typedef { .. } => "typedef"@,
        }
    }

    /// Rebuilds the field for another phase, with the payload `annot`.
    pub fn annotate<B: Annotation>(&self, annot: B::FieldAnnotation) -> (r: Field<B>)
        ensures
            r.loc == self.loc,
            r.annot == annot,
            self.desc.same_as(r.desc),
    {
        Field { loc: self.loc, annot, desc: self.desc.duplicate() }
    }

    /// The identifier of a named field: an array, a scalar or a typedef.
    pub fn id(&self) -> (r: Option<&str>)
        ensures
            r matches Some(s) ==> self.spec_id() == Some(s@),
            r is None ==> self.spec_id() is None,
    {
        match &self.desc {
            FieldDesc::Array { id, .. } => Some(id.as_str()),
            FieldDesc::Scalar { id, .. } => Some(id.as_str()),
            FieldDesc::Typedef { id, .. } => Some(id.as_str()),
            _ => None,
        }
    }

    /// The name of the field's kind.
    pub fn kind(&self) -> (r: &str)
        ensures
            r@ == self.spec_kind(),
    {
        match &self.desc {
            FieldDesc::Checksum { .. } => "payload",
            FieldDesc::Padding { .. } => "padding",
            FieldDesc::Size { .. } => "size",
            FieldDesc::Count { .. } => "count",
            FieldDesc::ElementSize { .. } => "elementsize",
            FieldDesc::Body => "body",
            FieldDesc::Payload { .. } => "payload",
            FieldDesc::FixedScalar { .. } => "fixed",
            FieldDesc::FixedEnum { .. } => "fixed",
            FieldDesc::Reserved { .. } => "reserved",
            FieldDesc::Group { .. } => "group",
            FieldDesc::Array { .. } => "array",
            FieldDesc::Scalar { .. } => "scalar",
            FieldDesc::Typedef { .. } => "typedef",
        }
    }
}

/// In a file whose line starts ascend, the location of an offset is on the
/// last line that starts at or before the offset.
pub proof fn lemma_location_on_last_line_start(starts: Seq<usize>, offset: usize, line: int)
    requires
        forall|i: int, j: int| 0 <= i <= j < starts.len() ==> starts[i] <= starts[j],
        SourceLocation::scan_stops_at(starts, offset, line),
    ensures
        forall|i: int| 0 <= i < starts.len() ==> (#[trigger] starts[i] <= offset <==> i <= line),
{
    assert forall|i: int| 0 <= i < starts.len() implies (#[trigger] starts[i] <= offset <==> i
        <= line) by {
        if i > line {
            assert(starts[line + 1] <= starts[i]);
        }
    }
}

} // verus!
