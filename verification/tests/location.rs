use codespan_reporting::diagnostic::LabelStyle;
use pdl::ast::{SourceLocation, SourceRange};
use pdl::range::decimal_string;
use pdl::scope::{Diagnostic, DiagnosticKind};

fn at(offset: usize, line: usize, column: usize) -> SourceLocation {
    SourceLocation { offset, line, column }
}

#[test]
fn source_location_new() {
    let line_starts = &[0, 20, 80, 120, 150];
    assert_eq!(
        SourceLocation::new(0, line_starts),
        SourceLocation { offset: 0, line: 0, column: 0 }
    );
    assert_eq!(
        SourceLocation::new(10, line_starts),
        SourceLocation { offset: 10, line: 0, column: 10 }
    );
    assert_eq!(
        SourceLocation::new(50, line_starts),
        SourceLocation { offset: 50, line: 1, column: 30 }
    );
    assert_eq!(
        SourceLocation::new(100, line_starts),
        SourceLocation { offset: 100, line: 2, column: 20 }
    );
    assert_eq!(
        SourceLocation::new(1000, line_starts),
        SourceLocation { offset: 1000, line: 4, column: 850 }
    );
}

#[test]
fn source_location_new_no_crash_with_empty_line_starts() {
    let loc = SourceLocation::new(100, &[]);
    assert_eq!(loc, SourceLocation { offset: 100, line: 0, column: 100 });
}

#[test]
fn source_location_on_a_line_start() {
    let line_starts = &[0, 20, 80];
    assert_eq!(SourceLocation::new(20, line_starts), at(20, 1, 0));
    assert_eq!(SourceLocation::new(19, line_starts), at(19, 0, 19));
    assert_eq!(SourceLocation::new(80, line_starts), at(80, 2, 0));
}

#[test]
fn source_location_before_the_first_line_start() {
    assert_eq!(SourceLocation::new(3, &[5, 9]), at(3, 0, 3));
}

#[test]
fn source_location_is_the_last_line_start_at_or_before() {
    let line_starts = [0usize, 7, 7, 30, 31, 90];
    for offset in 0..120usize {
        let loc = SourceLocation::new(offset, &line_starts);
        let mut line = 0;
        for (i, start) in line_starts.iter().enumerate() {
            if *start <= offset {
                line = i;
            }
        }
        assert_eq!(loc, at(offset, line, offset - line_starts[line]));
    }
}

#[test]
fn range_union_encloses_both() {
    let a = SourceRange { file: 3, start: at(10, 1, 2), end: at(20, 2, 4) };
    let b = SourceRange { file: 3, start: at(5, 0, 5), end: at(15, 1, 7) };
    let c = a + b;
    assert_eq!(c, SourceRange { file: 3, start: at(5, 0, 5), end: at(20, 2, 4) });
    assert_eq!(b + a, c);
    assert_eq!(a + a, a);
}

#[test]
fn range_union_orders_by_offset_then_line_then_column() {
    let a = SourceRange { file: 0, start: at(4, 9, 9), end: at(8, 0, 0) };
    let b = SourceRange { file: 0, start: at(4, 2, 50), end: at(8, 0, 1) };
    let c = a + b;
    assert_eq!(c.start, at(4, 2, 50));
    assert_eq!(c.end, at(8, 0, 1));
}

#[test]
fn range_text_on_one_line() {
    let r = SourceRange { file: 0, start: at(30, 2, 10), end: at(45, 2, 25) };
    assert_eq!(r.to_string(), "2:10-25");
}

#[test]
fn range_text_over_lines() {
    let r = SourceRange { file: 0, start: at(30, 2, 10), end: at(1450, 103, 0) };
    assert_eq!(r.to_string(), "2:10-103:0");
}

#[test]
fn decimal_string_is_the_usual_numeral() {
    for n in [0usize, 1, 9, 10, 11, 99, 100, 101, 850, 1000, 65535, usize::MAX] {
        assert_eq!(decimal_string(n), format!("{}", n));
    }
}

#[test]
fn primary_label_covers_the_range() {
    let r = SourceRange { file: 7, start: at(30, 2, 10), end: at(45, 2, 25) };
    let label = r.primary();
    assert_eq!(label.style, LabelStyle::Primary);
    assert_eq!(label.file_id, 7);
    assert_eq!(label.range, 30..45);
    assert_eq!(label.message, "");
}

#[test]
fn secondary_label_covers_the_range() {
    let r = SourceRange { file: 2, start: at(1, 0, 1), end: at(9, 0, 9) };
    let label = r.secondary();
    assert_eq!(label.style, LabelStyle::Secondary);
    assert_eq!(label.file_id, 2);
    assert_eq!(label.range, 1..9);
}

#[test]
fn diagnostic_labels_are_primary_then_secondary() {
    let here = SourceRange { file: 1, start: at(7, 0, 7), end: at(9, 0, 9) };
    let there = SourceRange { file: 1, start: at(1, 0, 1), end: at(5, 0, 5) };
    let d = Diagnostic {
        kind: DiagnosticKind::DuplicateIdentifier,
        primary: here,
        secondary: Some(there),
    };
    let labels = d.labels();
    assert_eq!(labels.len(), 2);
    assert_eq!(labels[0].style, LabelStyle::Primary);
    assert_eq!(labels[0].range, 7..9);
    assert_eq!(labels[1].style, LabelStyle::Secondary);
    assert_eq!(labels[1].range, 1..5);
    let d = Diagnostic { kind: DiagnosticKind::CyclicStructure, primary: here, secondary: None };
    let labels = d.labels();
    assert_eq!(labels.len(), 1);
    assert_eq!(labels[0].style, LabelStyle::Primary);
    assert_eq!(labels[0].file_id, 1);
}
