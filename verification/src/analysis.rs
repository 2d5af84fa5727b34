use crate::lines::LineTable;
use crate::parse::{line_starts_of, parse_module, parsed_module};
use crate::syntax::Statement;
use vstd::prelude::*;
use vstd::utf8::encode_utf8;

verus! {

/// Why the text of a file gives no syntax tree.
#[derive(Debug, Clone, Copy, PartialEq, Eq, Structural)]
pub enum ParseError {
    /// The text is longer than `u32::MAX` bytes.
    TooLong,
    /// The text is no module.
    Syntax,
}

/// The syntax tree of one file: the statements at its top level, and the line starts of
/// its text.
#[derive(Debug)]
pub struct SyntaxTree {
    pub body: Vec<Statement>,
    pub lines: LineTable,
}

/// Whether `source` gives a syntax tree: it is no longer than `u32::MAX` bytes and the
/// parser reads a module in it.
pub open spec fn parses(source: Seq<char>) -> bool {
    encode_utf8(source).len() <= u32::MAX && parsed_module(source) is Some
}

/// The syntax tree of `source`, or the reason why it has none.
pub fn parse_source(source: &str) -> (tree: Result<SyntaxTree, ParseError>)
    ensures
        match tree {
            Ok(t) => parses(source@) && parsed_module(source@) == Some(t.body@) && t.lines@
                == line_starts_of(source@),
            Err(ParseError::TooLong) => encode_utf8(source@).len() > u32::MAX,
            Err(ParseError::Syntax) => encode_utf8(source@).len() <= u32::MAX && parsed_module(
                source@,
            ) is None,
        },
{
    let lines = match LineTable::of(source) {
        Some(lines) => lines,
        None => {
            return Err(ParseError::TooLong);
        },
    };
    match parse_module(source) {
        Some(body) => Ok(SyntaxTree { body, lines }),
        None => Err(ParseError::Syntax),
    }
}

} // verus!
