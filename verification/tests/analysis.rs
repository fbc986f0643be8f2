use pdl::ast::{
    Annotation, Constraint, Decl, DeclDesc, EndiannessValue, Field, FieldDesc, File,
    SourceLocation, SourceRange, Tag, TestCase,
};
use pdl::scope::{DiagnosticKind, Scope};

#[derive(Debug)]
struct Parsed;

impl Annotation for Parsed {
    type FieldAnnotation = ();
    type DeclAnnotation = ();
}

#[derive(Debug)]
struct Sized;

impl Annotation for Sized {
    type FieldAnnotation = usize;
    type DeclAnnotation = Option<usize>;
}

fn span(start: usize, end: usize) -> SourceRange {
    SourceRange {
        file: 0,
        start: SourceLocation { offset: start, line: 0, column: start },
        end: SourceLocation { offset: end, line: 0, column: end },
    }
}

fn field(desc: FieldDesc) -> Field<Parsed> {
    Field { loc: span(0, 0), annot: (), desc }
}

fn scalar(id: &str, width: usize) -> Field<Parsed> {
    field(FieldDesc::Scalar { id: id.to_owned(), width })
}

fn typedef(id: &str, type_id: &str) -> Field<Parsed> {
    field(FieldDesc::Typedef { id: id.to_owned(), type_id: type_id.to_owned() })
}

fn array(width: Option<usize>, type_id: Option<&str>, size: Option<usize>) -> Field<Parsed> {
    field(FieldDesc::Array {
        id: "a".to_owned(),
        width,
        type_id: type_id.map(|t| t.to_owned()),
        size_modifier: None,
        size,
    })
}

fn packet(id: &str, parent: Option<&str>, fields: Vec<Field<Parsed>>) -> Decl<Parsed> {
    Decl::new(
        span(0, 0),
        DeclDesc::Packet {
            id: id.to_owned(),
            constraints: vec![],
            fields,
            parent_id: parent.map(|p| p.to_owned()),
        },
    )
}

fn structure(id: &str, parent: Option<&str>, fields: Vec<Field<Parsed>>) -> Decl<Parsed> {
    Decl::new(
        span(0, 0),
        DeclDesc::Struct {
            id: id.to_owned(),
            constraints: vec![],
            fields,
            parent_id: parent.map(|p| p.to_owned()),
        },
    )
}

fn enumeration(id: &str, width: usize) -> Decl<Parsed> {
    Decl::new(
        span(0, 0),
        DeclDesc::Enum {
            id: id.to_owned(),
            tags: vec![Tag { id: "A".to_owned(), loc: span(1, 2), value: 1 }],
            width,
        },
    )
}

fn file_of(declarations: Vec<Decl<Parsed>>) -> File<Parsed> {
    let mut file = File::new(0);
    file.declarations = declarations;
    file
}

#[test]
fn packet_width_is_the_sum_of_its_fields() {
    let file = file_of(vec![packet("P", None, vec![scalar("a", 8), scalar("b", 16)])]);
    let scope = Scope::new(&file).unwrap();
    assert_eq!(file.declarations[0].width(&scope, false), Some(24));
    assert_eq!(file.declarations[0].width(&scope, true), Some(24));
}

#[test]
fn struct_width_adds_the_width_of_its_parent() {
    let file = file_of(vec![
        structure("Child", Some("Base"), vec![scalar("b", 24)]),
        structure("Base", None, vec![scalar("a", 8)]),
    ]);
    let scope = Scope::new(&file).unwrap();
    assert_eq!(file.declarations[1].width(&scope, false), Some(8));
    assert_eq!(file.declarations[0].width(&scope, false), Some(32));
}

#[test]
fn payload_has_a_width_only_when_skipped() {
    let file = file_of(vec![packet(
        "P",
        None,
        vec![scalar("a", 8), scalar("b", 16), field(FieldDesc::Payload { size_modifier: None })],
    )]);
    let scope = Scope::new(&file).unwrap();
    assert_eq!(file.declarations[0].width(&scope, false), None);
    assert_eq!(file.declarations[0].width(&scope, true), Some(24));
    assert_eq!(field(FieldDesc::Body).width(&scope, false), None);
    assert_eq!(field(FieldDesc::Body).width(&scope, true), Some(0));
}

#[test]
fn parent_counts_with_its_payload_skipped() {
    let file = file_of(vec![
        packet("Base", None, vec![scalar("a", 8), field(FieldDesc::Payload { size_modifier: None })]),
        packet("Child", Some("Base"), vec![scalar("b", 16)]),
    ]);
    let scope = Scope::new(&file).unwrap();
    assert_eq!(file.declarations[0].width(&scope, false), None);
    assert_eq!(file.declarations[1].width(&scope, false), Some(24));
}

#[test]
fn array_width_is_count_times_element_width() {
    let file = file_of(vec![]);
    let scope = Scope::new(&file).unwrap();
    assert_eq!(array(Some(8), None, Some(4)).width(&scope, false), Some(32));
    assert_eq!(array(None, None, Some(4)).width(&scope, false), None);
}

#[test]
fn array_takes_the_element_width_from_its_type() {
    let file = file_of(vec![enumeration("E", 12)]);
    let scope = Scope::new(&file).unwrap();
    assert_eq!(array(None, Some("E"), Some(3)).width(&scope, false), Some(36));
    assert_eq!(array(Some(8), Some("E"), Some(3)).width(&scope, false), Some(24));
}

#[test]
fn array_of_unknown_count_has_a_width_only_when_skipped() {
    let file = file_of(vec![]);
    let scope = Scope::new(&file).unwrap();
    assert_eq!(array(Some(8), None, None).width(&scope, false), None);
    assert_eq!(array(Some(8), None, None).width(&scope, true), Some(0));
}

#[test]
fn sized_fields_have_their_declared_width() {
    let file = file_of(vec![enumeration("E", 5)]);
    let scope = Scope::new(&file).unwrap();
    let f = "x".to_owned();
    assert_eq!(field(FieldDesc::Size { field_id: f.clone(), width: 3 }).width(&scope, false), Some(3));
    assert_eq!(field(FieldDesc::Count { field_id: f.clone(), width: 4 }).width(&scope, false), Some(4));
    assert_eq!(
        field(FieldDesc::ElementSize { field_id: f.clone(), width: 6 }).width(&scope, false),
        Some(6)
    );
    assert_eq!(field(FieldDesc::Reserved { width: 7 }).width(&scope, false), Some(7));
    assert_eq!(field(FieldDesc::FixedScalar { width: 9, value: 1 }).width(&scope, false), Some(9));
    assert_eq!(
        field(FieldDesc::FixedEnum { enum_id: "E".to_owned(), tag_id: "A".to_owned() })
            .width(&scope, false),
        Some(5)
    );
    assert_eq!(typedef("t", "E").width(&scope, false), Some(5));
    assert_eq!(field(FieldDesc::Checksum { field_id: f }).width(&scope, false), Some(0));
}

#[test]
fn padding_and_group_fields_have_no_width() {
    let file = file_of(vec![]);
    let scope = Scope::new(&file).unwrap();
    assert_eq!(field(FieldDesc::Padding { size: 4 }).width(&scope, false), None);
    assert_eq!(field(FieldDesc::Padding { size: 4 }).width(&scope, true), None);
    assert_eq!(
        field(FieldDesc::Group { group_id: "G".to_owned(), constraints: vec![] }).width(&scope, true),
        None
    );
}

#[test]
fn declared_widths_of_declarations() {
    let file = file_of(vec![
        enumeration("E", 5),
        Decl::new(
            span(0, 0),
            DeclDesc::Checksum { id: "C".to_owned(), function: "f".to_owned(), width: 16 },
        ),
        Decl::new(
            span(0, 0),
            DeclDesc::CustomField { id: "F".to_owned(), width: Some(40), function: "g".to_owned() },
        ),
        Decl::new(
            span(0, 0),
            DeclDesc::CustomField { id: "V".to_owned(), width: None, function: "h".to_owned() },
        ),
        Decl::new(span(0, 0), DeclDesc::Group { id: "G".to_owned(), fields: vec![scalar("a", 8)] }),
        Decl::new(span(0, 0), DeclDesc::Test { type_id: "E".to_owned(), test_cases: vec![] }),
    ]);
    let scope = Scope::new(&file).unwrap();
    let widths: Vec<Option<usize>> =
        file.declarations.iter().map(|d| d.width(&scope, false)).collect();
    assert_eq!(widths, vec![Some(5), Some(16), Some(40), None, None, None]);
}

#[test]
fn width_that_does_not_fit_is_not_known() {
    let file = file_of(vec![packet("P", None, vec![scalar("a", usize::MAX), scalar("b", 1)])]);
    let scope = Scope::new(&file).unwrap();
    assert_eq!(file.declarations[0].width(&scope, false), None);
    assert_eq!(array(Some(usize::MAX), None, Some(2)).width(&scope, false), None);
    assert_eq!(array(Some(usize::MAX), None, Some(1)).width(&scope, false), Some(usize::MAX));
}

#[test]
fn undeclared_type_is_reported_and_has_no_width() {
    let file = file_of(vec![packet("P", None, vec![
        scalar("a", 8),
        Field { loc: span(10, 20), annot: (), desc: FieldDesc::Typedef {
            id: "t".to_owned(),
            type_id: "Missing".to_owned(),
        } },
    ])]);
    let scope = Scope::new(&file).unwrap();
    let ds = scope.unresolved_references();
    assert_eq!(ds.len(), 1);
    assert_eq!(ds[0].kind, DiagnosticKind::UnresolvedReference);
    assert_eq!(ds[0].primary, span(10, 20));
    assert_eq!(ds[0].secondary, None);
    assert_eq!(file.declarations[0].fields()[1].width(&scope, false), None);
    assert_eq!(file.declarations[0].width(&scope, false), None);
    assert!(file.declarations[0].fields()[1].declaration(&scope).is_none());
}

#[test]
fn undeclared_parent_is_reported_and_has_no_width() {
    let mut child = packet("P", Some("Nowhere"), vec![scalar("a", 8)]);
    child.loc = span(3, 30);
    let file = file_of(vec![child]);
    let scope = Scope::new(&file).unwrap();
    let ds = scope.unresolved_references();
    assert_eq!(ds.len(), 1);
    assert_eq!(ds[0].primary, span(3, 30));
    assert_eq!(file.declarations[0].width(&scope, false), None);
}

#[test]
fn resolved_file_has_no_unresolved_references() {
    let file = file_of(vec![
        enumeration("E", 8),
        packet("P", None, vec![typedef("t", "E")]),
        packet("Q", Some("P"), vec![array(None, Some("E"), None)]),
    ]);
    let scope = Scope::new(&file).unwrap();
    assert!(scope.unresolved_references().is_empty());
}

#[test]
fn parent_cycle_is_a_diagnostic() {
    let file = file_of(vec![
        packet("A", Some("B"), vec![scalar("a", 8)]),
        packet("B", Some("A"), vec![scalar("b", 8)]),
        packet("C", None, vec![scalar("c", 8)]),
    ]);
    match Scope::new(&file) {
        Ok(_) => panic!("a cycle of parents has a scope"),
        Err(ds) => {
            assert_eq!(ds.len(), 2);
            assert!(ds.iter().all(|d| d.kind == DiagnosticKind::CyclicStructure));
        }
    }
}

#[test]
fn self_reference_is_a_diagnostic() {
    let file = file_of(vec![structure("S", None, vec![typedef("next", "S")])]);
    match Scope::new(&file) {
        Ok(_) => panic!("a struct that holds itself has a scope"),
        Err(ds) => {
            assert_eq!(ds.len(), 1);
            assert_eq!(ds[0].kind, DiagnosticKind::CyclicStructure);
        }
    }
}

#[test]
fn forward_references_are_no_cycle() {
    let file = file_of(vec![
        packet("C", Some("B"), vec![scalar("c", 1)]),
        packet("B", Some("A"), vec![scalar("b", 2)]),
        packet("A", None, vec![typedef("e", "E")]),
        enumeration("E", 4),
    ]);
    let scope = Scope::new(&file).unwrap();
    assert_eq!(file.declarations[0].width(&scope, false), Some(7));
}

#[test]
fn duplicate_identifier_is_a_diagnostic() {
    let mut first = enumeration("E", 8);
    first.loc = span(1, 5);
    let mut second = packet("E", None, vec![]);
    second.loc = span(7, 9);
    let file = file_of(vec![first, second]);
    match Scope::new(&file) {
        Ok(_) => panic!("a repeated identifier has a scope"),
        Err(ds) => {
            assert_eq!(ds.len(), 1);
            assert_eq!(ds[0].kind, DiagnosticKind::DuplicateIdentifier);
            assert_eq!(ds[0].primary, span(7, 9));
            assert_eq!(ds[0].secondary, Some(span(1, 5)));
        }
    }
}

#[test]
fn scope_resolves_identifiers() {
    let file = file_of(vec![enumeration("E", 8), packet("P", None, vec![])]);
    let scope = Scope::new(&file).unwrap();
    assert_eq!(scope.get("P").unwrap().kind(), "packet");
    assert_eq!(scope.get("E").unwrap().id(), Some("E"));
    assert!(scope.get("Q").is_none());
    assert_eq!(scope.file().declarations.len(), 2);
}

#[test]
fn bitfields() {
    let file = file_of(vec![enumeration("E", 8), structure("S", None, vec![scalar("a", 8)])]);
    let scope = Scope::new(&file).unwrap();
    assert!(scalar("a", 3).is_bitfield(&scope));
    assert!(field(FieldDesc::Reserved { width: 1 }).is_bitfield(&scope));
    assert!(field(FieldDesc::FixedScalar { width: 1, value: 0 }).is_bitfield(&scope));
    assert!(field(FieldDesc::FixedEnum { enum_id: "E".to_owned(), tag_id: "A".to_owned() })
        .is_bitfield(&scope));
    assert!(field(FieldDesc::Size { field_id: "a".to_owned(), width: 8 }).is_bitfield(&scope));
    assert!(field(FieldDesc::Count { field_id: "a".to_owned(), width: 8 }).is_bitfield(&scope));
    assert!(field(FieldDesc::ElementSize { field_id: "a".to_owned(), width: 8 })
        .is_bitfield(&scope));
    assert!(typedef("t", "E").is_bitfield(&scope));
    assert!(!typedef("t", "S").is_bitfield(&scope));
    assert!(!typedef("t", "Missing").is_bitfield(&scope));
    assert!(!array(Some(8), None, Some(2)).is_bitfield(&scope));
    assert!(!field(FieldDesc::Body).is_bitfield(&scope));
    assert!(!field(FieldDesc::Payload { size_modifier: None }).is_bitfield(&scope));
    assert!(!field(FieldDesc::Checksum { field_id: "a".to_owned() }).is_bitfield(&scope));
    assert!(!field(FieldDesc::Padding { size: 1 }).is_bitfield(&scope));
    assert!(!field(FieldDesc::Group { group_id: "G".to_owned(), constraints: vec![] })
        .is_bitfield(&scope));
}

#[test]
fn field_declaration_follows_the_type() {
    let file = file_of(vec![enumeration("E", 8), structure("S", None, vec![])]);
    let scope = Scope::new(&file).unwrap();
    assert_eq!(typedef("t", "S").declaration(&scope).unwrap().id(), Some("S"));
    assert_eq!(array(None, Some("E"), None).declaration(&scope).unwrap().id(), Some("E"));
    assert_eq!(
        field(FieldDesc::FixedEnum { enum_id: "E".to_owned(), tag_id: "A".to_owned() })
            .declaration(&scope)
            .unwrap()
            .kind(),
        "enum"
    );
    assert!(scalar("a", 8).declaration(&scope).is_none());
    assert!(array(Some(8), None, Some(1)).declaration(&scope).is_none());
}

#[test]
fn field_kinds_and_identifiers() {
    let f = "x".to_owned();
    let all = vec![
        (field(FieldDesc::Checksum { field_id: f.clone() }), "payload", None),
        (field(FieldDesc::Padding { size: 1 }), "padding", None),
        (field(FieldDesc::Size { field_id: f.clone(), width: 1 }), "size", None),
        (field(FieldDesc::Count { field_id: f.clone(), width: 1 }), "count", None),
        (field(FieldDesc::ElementSize { field_id: f.clone(), width: 1 }), "elementsize", None),
        (field(FieldDesc::Body), "body", None),
        (field(FieldDesc::Payload { size_modifier: None }), "payload", None),
        (field(FieldDesc::FixedScalar { width: 1, value: 1 }), "fixed", None),
        (field(FieldDesc::FixedEnum { enum_id: f.clone(), tag_id: f.clone() }), "fixed", None),
        (field(FieldDesc::Reserved { width: 1 }), "reserved", None),
        (field(FieldDesc::Group { group_id: f.clone(), constraints: vec![] }), "group", None),
        (array(None, None, None), "array", Some("a")),
        (scalar("s", 1), "scalar", Some("s")),
        (typedef("t", "T"), "typedef", Some("t")),
    ];
    for (field, kind, id) in all.iter() {
        assert_eq!(field.kind(), *kind);
        assert_eq!(field.id(), *id);
    }
}

#[test]
fn declaration_kinds_and_identifiers() {
    let constraint =
        Constraint { id: "c".to_owned(), loc: span(0, 1), value: Some(1), tag_id: None };
    let p = Decl::<Parsed>::new(
        span(0, 0),
        DeclDesc::Packet {
            id: "P".to_owned(),
            constraints: vec![constraint.clone()],
            fields: vec![scalar("a", 8)],
            parent_id: Some("Q".to_owned()),
        },
    );
    assert_eq!(p.kind(), "packet");
    assert_eq!(p.id(), Some("P"));
    assert_eq!(p.parent_id(), Some("Q"));
    assert_eq!(p.constraints().len(), 1);
    assert_eq!(p.constraints()[0].id, "c");
    assert_eq!(p.fields().len(), 1);
    let s = structure("S", None, vec![]);
    assert_eq!(s.kind(), "struct");
    assert_eq!(s.parent_id(), None);
    let e = enumeration("E", 8);
    assert_eq!(e.kind(), "enum");
    assert_eq!(e.parent_id(), None);
    assert!(e.constraints().is_empty());
    assert!(e.fields().is_empty());
    let g = Decl::<Parsed>::new(
        span(0, 0),
        DeclDesc::Group { id: "G".to_owned(), fields: vec![scalar("a", 8)] },
    );
    assert_eq!(g.kind(), "group");
    assert_eq!(g.fields().len(), 1);
    assert!(g.constraints().is_empty());
    let t = Decl::<Parsed>::new(
        span(0, 0),
        DeclDesc::Test { type_id: "P".to_owned(), test_cases: vec![] },
    );
    assert_eq!(t.kind(), "test");
    assert_eq!(t.id(), None);
    let c = Decl::<Parsed>::new(
        span(0, 0),
        DeclDesc::Checksum { id: "C".to_owned(), function: "f".to_owned(), width: 8 },
    );
    assert_eq!(c.kind(), "checksum");
    let f = Decl::<Parsed>::new(
        span(0, 0),
        DeclDesc::CustomField { id: "F".to_owned(), width: None, function: "f".to_owned() },
    );
    assert_eq!(f.kind(), "custom field");
    assert_eq!(f.id(), Some("F"));
}

#[test]
fn new_file_is_empty_and_little_endian() {
    let file: File<Parsed> = File::new(4);
    assert_eq!(file.file, 4);
    assert_eq!(file.version, "1,0");
    assert!(file.comments.is_empty());
    assert!(file.declarations.is_empty());
    assert_eq!(file.endianness.value, EndiannessValue::LittleEndian);
    assert_eq!(file.endianness.loc, SourceRange::default());
}

#[test]
fn children_are_the_declarations_with_that_parent() {
    let file = file_of(vec![
        packet("A", None, vec![]),
        packet("B", Some("A"), vec![]),
        packet("C", Some("B"), vec![]),
        packet("D", Some("A"), vec![]),
    ]);
    let children: Vec<Option<&str>> =
        file.iter_children(&file.declarations[0]).iter().map(|d| d.id()).collect();
    assert_eq!(children, vec![Some("B"), Some("D")]);
    assert!(file.iter_children(&file.declarations[3]).is_empty());
}

#[test]
fn field_annotate_keeps_the_description() {
    let constraint =
        Constraint { id: "c".to_owned(), loc: span(0, 1), value: None, tag_id: Some("T".to_owned()) };
    let parsed = Field::<Parsed> {
        loc: span(4, 9),
        annot: (),
        desc: FieldDesc::Group { group_id: "G".to_owned(), constraints: vec![constraint] },
    };
    let annotated: Field<Sized> = parsed.annotate(17);
    assert_eq!(annotated.loc, span(4, 9));
    assert_eq!(annotated.annot, 17);
    assert_eq!(annotated.desc, parsed.desc);
    let a = array(Some(8), Some("E"), Some(4));
    assert_eq!(a.annotate::<Sized>(0).desc, a.desc);
}

#[test]
fn decl_annotate_with_identity_mapping_keeps_the_description() {
    let constraint =
        Constraint { id: "c".to_owned(), loc: span(0, 1), value: Some(3), tag_id: None };
    let parsed = Decl::<Parsed> {
        loc: span(2, 40),
        annot: (),
        desc: DeclDesc::Struct {
            id: "S".to_owned(),
            constraints: vec![constraint.clone()],
            fields: vec![scalar("a", 8), typedef("t", "E")],
            parent_id: Some("Base".to_owned()),
        },
    };
    let annotated: Decl<Sized> = parsed
        .annotate(Some(16), |fields| fields.iter().map(|f| f.annotate(0)).collect());
    assert_eq!(annotated.loc, span(2, 40));
    assert_eq!(annotated.annot, Some(16));
    assert_eq!(annotated.kind(), "struct");
    assert_eq!(annotated.id(), Some("S"));
    assert_eq!(annotated.parent_id(), Some("Base"));
    assert_eq!(annotated.constraints(), &[constraint]);
    assert_eq!(annotated.fields().len(), 2);
    for (made, own) in annotated.fields().iter().zip(parsed.fields().iter()) {
        assert_eq!(made.desc, own.desc);
        assert_eq!(made.loc, own.loc);
    }
}

#[test]
fn decl_annotate_copies_tags_and_test_cases() {
    let e = enumeration("E", 8);
    let annotated: Decl<Sized> = e.annotate(None, |_| panic!("an enum has no fields"));
    match annotated.desc {
        DeclDesc::Enum { id, tags, width } => {
            assert_eq!(id, "E");
            assert_eq!(width, 8);
            assert_eq!(tags.len(), 1);
            assert_eq!(tags[0].id, "A");
            assert_eq!(tags[0].value, 1);
            assert_eq!(tags[0].loc, span(1, 2));
        }
        _ => panic!("an enum became another kind"),
    }
    let t = Decl::<Parsed>::new(
        span(0, 0),
        DeclDesc::Test {
            type_id: "P".to_owned(),
            test_cases: vec![TestCase { loc: span(5, 6), input: "0011".to_owned() }],
        },
    );
    let annotated: Decl<Sized> = t.annotate(None, |_| panic!("a test has no fields"));
    match annotated.desc {
        DeclDesc::Test { type_id, test_cases } => {
            assert_eq!(type_id, "P");
            assert_eq!(test_cases.len(), 1);
            assert_eq!(test_cases[0].input, "0011");
        }
        _ => panic!("a test became another kind"),
    }
}

#[test]
fn validated_scope_has_no_diagnostics() {
    let file = file_of(vec![enumeration("E", 8), packet("P", None, vec![typedef("t", "E")])]);
    assert!(Scope::validated(&file).is_ok());
}

#[test]
fn validation_reports_the_first_check_that_fails() {
    let file = file_of(vec![
        enumeration("E", 8),
        enumeration("E", 8),
        packet("P", Some("P"), vec![typedef("t", "Missing")]),
    ]);
    match Scope::validated(&file) {
        Ok(_) => panic!("a repeated identifier was accepted"),
        Err(ds) => {
            assert_eq!(ds.len(), 1);
            assert_eq!(ds[0].kind, DiagnosticKind::DuplicateIdentifier);
        }
    }
    let file = file_of(vec![
        enumeration("E", 8),
        packet("P", Some("P"), vec![typedef("t", "Missing")]),
    ]);
    match Scope::validated(&file) {
        Ok(_) => panic!("a packet that is its own parent was accepted"),
        Err(ds) => {
            assert_eq!(ds.len(), 1);
            assert_eq!(ds[0].kind, DiagnosticKind::CyclicStructure);
        }
    }
    let file = file_of(vec![
        enumeration("E", 8),
        packet("P", Some("Q"), vec![typedef("t", "Missing"), typedef("u", "E")]),
    ]);
    match Scope::validated(&file) {
        Ok(_) => panic!("references to nothing were accepted"),
        Err(ds) => {
            assert_eq!(ds.len(), 2);
            assert!(ds.iter().all(|d| d.kind == DiagnosticKind::UnresolvedReference));
        }
    }
}

#[test]
fn declarations_that_reach_a_cycle_are_reported_too() {
    let file = file_of(vec![
        packet("Leaf", Some("A"), vec![]),
        packet("A", Some("B"), vec![]),
        packet("B", Some("A"), vec![]),
        packet("Free", None, vec![]),
    ]);
    match Scope::new(&file) {
        Ok(_) => panic!("a cycle of parents has a scope"),
        Err(ds) => assert_eq!(ds.len(), 3),
    }
}

#[test]
fn group_expansion_cycle_is_a_diagnostic() {
    let group = |id: &str, other: &str| {
        Decl::<Parsed>::new(
            span(0, 0),
            DeclDesc::Group {
                id: id.to_owned(),
                fields: vec![field(FieldDesc::Group {
                    group_id: other.to_owned(),
                    constraints: vec![],
                })],
            },
        )
    };
    let file = file_of(vec![group("G", "H"), group("H", "G")]);
    assert!(Scope::new(&file).is_err());
    let file = file_of(vec![group("G", "H"), group("H", "I")]);
    assert!(Scope::new(&file).is_ok());
}

#[test]
fn annotate_by_default_keeps_every_attribute() {
    let constraint =
        Constraint { id: "c".to_owned(), loc: span(0, 1), value: Some(3), tag_id: None };
    let parsed = Decl::<Parsed> {
        loc: span(2, 40),
        annot: (),
        desc: DeclDesc::Packet {
            id: "P".to_owned(),
            constraints: vec![constraint.clone()],
            fields: vec![scalar("a", 8), array(Some(8), None, Some(4)), typedef("t", "E")],
            parent_id: Some("Base".to_owned()),
        },
    };
    let sized: Decl<Sized> = parsed.annotate_by_default(Some(40));
    assert_eq!(sized.loc, parsed.loc);
    assert_eq!(sized.annot, Some(40));
    assert_eq!(sized.kind(), "packet");
    assert_eq!(sized.id(), Some("P"));
    assert_eq!(sized.parent_id(), Some("Base"));
    assert_eq!(sized.constraints(), &[constraint]);
    assert_eq!(sized.fields().len(), 3);
    for (made, own) in sized.fields().iter().zip(parsed.fields().iter()) {
        assert_eq!(made.desc, own.desc);
        assert_eq!(made.loc, own.loc);
        assert_eq!(made.annot, 0);
    }
    let file = file_of(vec![enumeration("E", 8)]);
    let sized_file: File<Sized> = File {
        version: file.version.clone(),
        file: file.file,
        comments: vec![],
        endianness: file.endianness,
        declarations: file.declarations.iter().map(|d| d.annotate_by_default(None)).collect(),
    };
    let scope = Scope::new(&sized_file).unwrap();
    assert_eq!(sized.fields()[1].width(&scope, false), Some(32));
    assert_eq!(sized.fields()[2].width(&scope, false), Some(8));
}
