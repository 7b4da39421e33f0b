use vstd::prelude::*;

use crate::token::{Keyword, Punct, Token};

verus! {

/// The set of alternatives a parser position was prepared to accept when it
/// failed. A variant either names one concrete token, or one of the fixed
/// alternative sets of the grammar, so a caller can render the full list.
#[derive(Clone, Copy, Debug, PartialEq, Eq, Structural)]
pub enum Expected {
    /// One of `SELECT`, `INSERT`, `UPDATE`, `DELETE`.
    Statement,
    /// A column reference: an identifier or the `*` wildcard.
    ColumnRef,
    /// A comparison operator of a condition leaf.
    Comparison,
    /// `ASC` or `DESC`.
    OrderDirection,
    /// `UPDATE` or `SHARE` after `FOR`.
    LockKind,
    /// `AND` or `OR` opening a condition group.
    Combinator,
    /// Start of a condition node: a combinator keyword (opening a group
    /// when a colon follows, else standing as a column name), or an
    /// identifier opening a leaf.
    ConditionStart,
    /// `INNER`, `LEFT`, `RIGHT` or `FULL`.
    JoinKind,
    /// One fixed keyword.
    Keyword(Keyword),
    /// One fixed punctuation token.
    Punct(Punct),
    /// A bare identifier.
    Identifier,
    /// An integer literal token.
    IntegerLiteral,
    /// An operand of a value expression: an identifier or an integer literal.
    ValueExpr,
    /// `,` continuing a brace-delimited list, or `}` closing it.
    ListSep,
    /// No further token: the statement was complete.
    EndOfInput,
}

/// A structured parse failure: the token at `pos` (or the end of the
/// stream, when `found` is `None`) matched none of the alternatives the
/// grammar permits there. The grammar is all-or-nothing: the first failure
/// aborts the whole parse and propagates unchanged.
#[derive(Clone, Debug, PartialEq, Eq)]
pub struct ParseError {
    pub pos: usize,
    pub expected: Expected,
    pub found: Option<Token>,
}

/// The token a failure reports: the one at `pos`, or nothing at end of input.
pub open spec fn spec_found(t: Seq<Token>, pos: int) -> Option<Token> {
    if 0 <= pos < t.len() {
        Some(t[pos])
    } else {
        None
    }
}

/// The error every mismatch at `pos` produces.
pub open spec fn spec_unexpected(t: Seq<Token>, pos: int, expected: Expected) -> ParseError {
    ParseError { pos: pos as usize, expected, found: spec_found(t, pos) }
}

/// Builds the unexpected-token error for position `pos`.
pub fn unexpected_at(t: &Vec<Token>, pos: usize, expected: Expected) -> (e: ParseError)
    ensures
        e == spec_unexpected(t@, pos as int, expected),
{
    let found = if pos < t.len() {
        Some(t[pos].dup())
    } else {
        None
    };
    ParseError { pos, expected, found }
}

} // verus!
