//! Source positions carried by tokens and AST nodes.
use vstd::prelude::*;

verus! {

/// A location in a source file: the file name and a 1-based line and column.
#[derive(Debug)]
pub struct Position {
    pub filename: String,
    pub line: u64,
    pub column: u64,
}

/// Mathematical image of a `Position`.
pub struct PosV {
    pub filename: Seq<char>,
    pub line: int,
    pub column: int,
}

impl View for Position {
    type V = PosV;

    open spec fn view(&self) -> PosV {
        PosV { filename: self.filename@, line: self.line as int, column: self.column as int }
    }
}

/// The placeholder position of synthesised AST nodes.
pub open spec fn synthetic_pos() -> PosV {
    PosV { filename: Seq::<char>::empty(), line: 0, column: 0 }
}

impl Position {
    /// A placeholder position, borrowed by synthesised AST nodes.
    pub fn synthetic() -> (r: Position)
        ensures
            r@ == synthetic_pos(),
    {
        Position { filename: String::new(), line: 0, column: 0 }
    }

    pub fn duplicate(&self) -> (r: Position)
        ensures
            r == *self,
    {
        Position { filename: self.filename.clone(), line: self.line, column: self.column }
    }
}

impl Clone for Position {
    fn clone(&self) -> (r: Self)
        ensures
            r == *self,
    {
        self.duplicate()
    }
}

} // verus!
