//! Positions in source files.

use crate::text::{decimal, decimal_string};
use vstd::prelude::*;
use vstd::string::StringExecFns;

verus! {

/// A position in one of the source files.
#[derive(Clone, Copy, Debug, PartialEq, Eq, Structural)]
pub struct Pos {
    /// The index of the file among the file names.
    pub file: usize,
    /// The byte offset in the file.
    pub offset: usize,
    /// The line number.
    pub line: usize,
    /// The column number.
    pub col: usize,
}

impl Pos {
    /// The name of the file and the number of the line.
    pub open spec fn line_text(self, filenames: Seq<String>) -> Seq<char> {
        filenames[self.file as int]@ + " line "@ + decimal(self.line as nat)
    }

    /// Returns the name of the file and the number of the line.
    pub fn pretty_print_line(&self, filenames: &Vec<String>) -> (s: String)
        requires
            self.file < filenames@.len(),
        ensures
            s@ == self.line_text(filenames@),
    {
        let mut s = filenames[self.file].clone();
        s.append(" line ");
        s.append(decimal_string(self.line as u64).as_str());
        s
    }
}

} // verus!
