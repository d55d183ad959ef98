//! What the editor asks of the server.

use vstd::prelude::*;

verus! {

/// The editor's cursor moved to a place in a source file.
#[derive(Debug)]
pub struct ChangeCursorPositionRequest {
    pub filepath: String,
    pub line: usize,
    /// Counted from 0, in characters of the line.
    pub character: usize,
}

/// The editor asks the viewers to scroll to a place in a source file.
#[derive(Debug)]
pub struct SrcToDocJumpRequest {
    pub filepath: String,
    pub line: usize,
    /// Counted from 0, in characters of the line.
    pub character: usize,
}

/// Unsaved files of the editor: each path with the text that stands for the
/// file. Where a path occurs more than once, its last text counts.
#[derive(Debug)]
pub struct MemoryFiles {
    pub files: Vec<(String, String)>,
}

/// Paths of files that the editor no longer holds unsaved.
#[derive(Debug)]
pub struct MemoryFilesShort {
    pub files: Vec<String>,
}

/// A source file of the compiler: its text, cut into lines.
#[verifier::external_type_specification]
#[verifier::external_body]
pub struct ExSource(typst::syntax::Source);

/// The byte at which column `column` of line `line` of a source file begins:
/// lines and columns are counted from 0, and a column is one character. There
/// is none where the file has no such line.
pub uninterp spec fn byte_of_line_column(src: typst::syntax::Source, line: int, column: int) -> Option<
    int,
>;

/// `Source::line_column_to_byte`. What it gives is a function of the source
/// file, the line and the column alone; that function is
/// [`byte_of_line_column`].
#[verifier::external_body]
fn line_column_to_byte(src: &typst::syntax::Source, line: usize, column: usize) -> (res: Option<
    usize,
>)
    ensures
        match res {
            Some(byte) => byte_of_line_column(*src, line as int, column as int) == Some(
                byte as int,
            ),
            None => byte_of_line_column(*src, line as int, column as int) is None,
        },
{
    src.line_column_to_byte(line, column)
}

impl SrcToDocJumpRequest {
    /// The byte of the source file `src` that this request points at.
    pub fn to_byte_offset(&self, src: &typst::syntax::Source) -> (res: Option<usize>)
        ensures
            match res {
                Some(byte) => byte_of_line_column(*src, self.line as int, self.character as int)
                    == Some(byte as int),
                None => byte_of_line_column(*src, self.line as int, self.character as int)
                    is None,
            },
    {
        line_column_to_byte(src, self.line, self.character)
    }
}

} // verus!
