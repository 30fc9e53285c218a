//! The format model: how one test case's values are laid out as text.

use vstd::prelude::*;

verus! {

/// A count of rows, columns or items.
pub type Size = usize;

/// One value of a test case.
#[derive(Debug, Clone, PartialEq)]
pub enum Scalar {
    UInt(u64),
    /// A floating-point value, held as its shortest round-trip decimal text.
    Float(String),
    String(String),
    Char(char),
    Int(i64),
    Bool(bool),
}

/// One field of a line: a value, or a run of values separated by spaces.
#[derive(Debug, Clone, PartialEq)]
pub enum LineElement {
    Scalar(Scalar),
    /// At most the given number of leading values.
    BoundedVec(Vec<Scalar>, Size),
    UnboundedVec(Vec<Scalar>),
}

/// One unit of a test case's text.
#[derive(Debug, Clone, PartialEq)]
pub enum IOElement {
    /// Fields joined by single spaces.
    Line(Vec<LineElement>),
    /// A line taken verbatim.
    RawLine(String),
    /// An explicitly empty line.
    EmptyLine,
    /// Parallel columns turned into the given number of rows.
    LinesBounded(Vec<Vec<Scalar>>, Size),
    /// Parallel columns turned into as many rows as the first column holds.
    LinesUnbounded(Vec<Vec<Scalar>>),
    /// The given number of leading lines, taken verbatim.
    RawLinesBounded(Vec<String>, Size),
    RawLinesUnbounded(Vec<String>),
    /// A grid of the given height and width.
    Grid(Vec<Vec<Scalar>>, Size, Size),
}

/// A whole test case's text, one element after another.
pub type IOFormat = Vec<IOElement>;

} // verus!
