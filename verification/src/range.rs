//! Operations on source ranges: the enclosing span of two ranges, the
//! text form of a range, and the labels that a diagnostic renderer takes.

use crate::ast::{SourceLocation, SourceRange};
use crate::scope::Diagnostic;
use codespan_reporting::diagnostic::Label;
use vstd::prelude::*;
use vstd::string::StringExecFns;

verus! {

/// The label type of the diagnostic renderer. Nothing in this library
/// looks inside a label.
#[verifier::external_type_specification]
#[verifier::external_body]
#[verifier::reject_recursive_types(Id)]
pub struct ExLabel<Id>(Label<Id>);

/// The label that `Label::primary` makes for the bytes from `start` up to
/// `end` of the file `file`.
pub uninterp spec fn primary_label(file: usize, start: usize, end: usize) -> Label<usize>;

/// The label that `Label::secondary` makes for the bytes from `start` up
/// to `end` of the file `file`.
pub uninterp spec fn secondary_label(file: usize, start: usize, end: usize) -> Label<usize>;

/// Whether `a` comes no later than `b`: by offset, then line, then column.
pub open spec fn location_le(a: SourceLocation, b: SourceLocation) -> bool {
    a.offset < b.offset || (a.offset == b.offset && (a.line < b.line || (a.line == b.line
        && a.column <= b.column)))
}

/// The earlier of two locations.
pub open spec fn earlier(a: SourceLocation, b: SourceLocation) -> SourceLocation {
    if location_le(a, b) {
        a
    } else {
        b
    }
}

/// The later of two locations.
pub open spec fn later(a: SourceLocation, b: SourceLocation) -> SourceLocation {
    if location_le(a, b) {
        b
    } else {
        a
    }
}

/// The decimal digit `d`.
pub open spec fn digit(d: nat) -> Seq<char> {
    if d == 0 {
        "0"@
    } else if d == 1 {
        "1"@
    } else if d == 2 {
        "2"@
    } else if d == 3 {
        "3"@
    } else if d == 4 {
        "4"@
    } else if d == 5 {
        "5"@
    } else if d == 6 {
        "6"@
    } else if d == 7 {
        "7"@
    } else if d == 8 {
        "8"@
    } else {
        "9"@
    }
}

/// The decimal numeral of `n`, without leading zeros.
pub open spec fn decimal(n: nat) -> Seq<char>
    decreases n,
{
    if n < 10 {
        digit(n)
    } else {
        decimal(n / 10) + digit(n % 10)
    }
}

fn digit_str(d: usize) -> (s: &'static str)
    requires
        d < 10,
    ensures
        s@ == digit(d as nat),
{
    if d == 0 {
        "0"
    } else if d == 1 {
        "1"
    } else if d == 2 {
        "2"
    } else if d == 3 {
        "3"
    } else if d == 4 {
        "4"
    } else if d == 5 {
        "5"
    } else if d == 6 {
        "6"
    } else if d == 7 {
        "7"
    } else if d == 8 {
        "8"
    } else {
        "9"
    }
}

/// The decimal numeral of `n`.
pub fn decimal_string(n: usize) -> (s: String)
    ensures
        s@ == decimal(n as nat),
    decreases n,
{
    if n < 10 {
        digit_str(n).to_owned()
    } else {
        decimal_string(n / 10).concat(digit_str(n % 10))
    }
}

fn location_at_or_before(a: &SourceLocation, b: &SourceLocation) -> (r: bool)
    ensures
        r == location_le(*a, *b),
{
    a.offset < b.offset || (a.offset == b.offset && (a.line < b.line || (a.line == b.line
        && a.column <= b.column)))
}

impl core::ops::Add<SourceRange> for SourceRange {
    type Output = SourceRange;

    /// The smallest range that encloses both. Both lie in one file.
    fn add(self, rhs: SourceRange) -> (r: SourceRange) {
        SourceRange {
            file: self.file,
            start: if location_at_or_before(&self.start, &rhs.start) {
                self.start
            } else {
                rhs.start
            },
            end: if location_at_or_before(&self.end, &rhs.end) {
                rhs.end
            } else {
                self.end
            },
        }
    }
}

impl vstd::std_specs::ops::AddSpecImpl<SourceRange> for SourceRange {
    open spec fn obeys_add_spec() -> bool {
        true
    }

    open spec fn add_req(self, rhs: SourceRange) -> bool {
        self.file == rhs.file
    }

    open spec fn add_spec(self, rhs: SourceRange) -> SourceRange {
        SourceRange {
            file: self.file,
            start: earlier(self.start, rhs.start),
            end: later(self.end, rhs.end),
        }
    }
}

impl SourceRange {
    /// The text form of the range: `line:column-column` where it lies on
    /// one line, `line:column-line:column` where it does not.
    pub open spec fn spec_to_string(&self) -> Seq<char> {
        if self.start.line == self.end.line {
            decimal(self.start.line as nat) + ":"@ + decimal(self.start.column as nat) + "-"@
                + decimal(self.end.column as nat)
        } else {
            decimal(self.start.line as nat) + ":"@ + decimal(self.start.column as nat) + "-"@
                + decimal(self.end.line as nat) + ":"@ + decimal(self.end.column as nat)
        }
    }

    /// The text form of the range.
    pub fn to_string(&self) -> (s: String)
        ensures
            s@ == self.spec_to_string(),
    {
        let mut s = decimal_string(self.start.line);
        s.append(":");
        s.append(decimal_string(self.start.column).as_str());
        s.append("-");
        if self.start.line != self.end.line {
            s.append(decimal_string(self.end.line).as_str());
            s.append(":");
        }
        s.append(decimal_string(self.end.column).as_str());
        s
    }

    /// The label that marks the range as the offending construct. It is
    /// what `Label::primary` returns for the range's file and byte offsets.
    #[verifier::external_body]
    pub fn primary(&self) -> (label: Label<usize>)
        ensures
            label == primary_label(self.file, self.start.offset, self.end.offset),
    {
        Label::primary(self.file, self.start.offset..self.end.offset)
    }

    /// The label that marks the range as supporting context. It is what
    /// `Label::secondary` returns for the range's file and byte offsets.
    #[verifier::external_body]
    pub fn secondary(&self) -> (label: Label<usize>)
        ensures
            label == secondary_label(self.file, self.start.offset, self.end.offset),
    {
        Label::secondary(self.file, self.start.offset..self.end.offset)
    }
}

impl Diagnostic {
    /// The labels of the diagnostic for the renderer: the primary label
    /// of the offending construct, then the secondary label of the
    /// supporting context where there is one.
    pub fn labels(&self) -> (r: Vec<Label<usize>>)
        ensures
            r@.len() == if self.secondary is Some {
                2nat
            } else {
                1nat
            },
            r@[0] == primary_label(
                self.primary.file,
                self.primary.start.offset,
                self.primary.end.offset,
            ),
            self.secondary matches Some(context) ==> r@[1] == secondary_label(
                context.file,
                context.start.offset,
                context.end.offset,
            ),
    {
        let mut r: Vec<Label<usize>> = Vec::new();
        r.push(self.primary.primary());
        match &self.secondary {
            Some(context) => {
                r.push(context.secondary());
            },
            None => {},
        }
        r
    }
}

} // verus!
