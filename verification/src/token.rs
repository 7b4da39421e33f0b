use vstd::prelude::*;

verus! {

/// The reserved words of the statement grammar. The token stream hands them
/// to the parser already classified, case-sensitively. `And` and `Or` are
/// context-sensitive: they open a condition group only when a colon
/// follows, and otherwise stand for a plain column name with that spelling.
///
/// `SetKw` stands for the `SET` keyword of an update statement; the bare name
/// `Set` would shadow the verifier's set type and is therefore avoided.
/// `If` is the guard separator inside a condition tree.
#[derive(Clone, Copy, Debug, PartialEq, Eq, Structural)]
pub enum Keyword {
    Select,
    Insert,
    Update,
    Delete,
    From,
    Where,
    And,
    Or,
    In,
    Like,
    Not,
    Group,
    By,
    Order,
    Asc,
    Desc,
    Limit,
    Offset,
    Join,
    On,
    Inner,
    Outer,
    Left,
    Right,
    Full,
    For,
    Share,
    SetKw,
    Returning,
    As,
    Into,
    If,
}

/// Punctuation tokens. `Assign` is the single `=` of an assignment list;
/// the comparison and arithmetic marks double as the binary operators the
/// value-expression grammar accepts.
#[derive(Clone, Copy, Debug, PartialEq, Eq, Structural)]
pub enum Punct {
    LBrace,
    RBrace,
    Comma,
    Colon,
    Semicolon,
    Assign,
    EqEq,
    Ne,
    Lt,
    Le,
    Gt,
    Ge,
    Star,
    Plus,
    Minus,
    Slash,
}

/// One classified token of the input stream. The stream is produced by an
/// external tokenizer, which classifies integer literals and hands over
/// their non-negative value; a literal that does not fit this range is the
/// tokenizer's error, not a token.
#[derive(Clone, Debug, PartialEq, Eq)]
pub enum Token {
    Ident(String),
    IntLit(u128),
    Kw(Keyword),
    Punct(Punct),
}

impl Token {
    /// A structural copy. The derived `Clone` tells the verifier nothing, so
    /// verified code copies tokens through this method instead.
    pub fn dup(&self) -> (t: Token)
        ensures
            t == *self,
    {
        match self {
            Token::Ident(s) => Token::Ident(s.clone()),
            Token::IntLit(n) => Token::IntLit(*n),
            Token::Kw(k) => Token::Kw(*k),
            Token::Punct(p) => Token::Punct(*p),
        }
    }
}

/// Tokens that may open a value-expression operand: a bare identifier or an
/// integer literal.
pub open spec fn spec_is_atom(tok: Token) -> bool {
    match tok {
        Token::Ident(_) => true,
        Token::IntLit(_) => true,
        _ => false,
    }
}

/// Punctuation accepted as a binary operator inside a value expression.
pub open spec fn spec_is_binop(tok: Token) -> bool {
    match tok {
        Token::Punct(p) => match p {
            Punct::EqEq => true,
            Punct::Ne => true,
            Punct::Lt => true,
            Punct::Le => true,
            Punct::Gt => true,
            Punct::Ge => true,
            Punct::Star => true,
            Punct::Plus => true,
            Punct::Minus => true,
            Punct::Slash => true,
            _ => false,
        },
        _ => false,
    }
}

pub fn is_atom(tok: &Token) -> (r: bool)
    ensures
        r == spec_is_atom(*tok),
{
    match tok {
        Token::Ident(_) => true,
        Token::IntLit(_) => true,
        _ => false,
    }
}

pub fn is_binop(tok: &Token) -> (r: bool)
    ensures
        r == spec_is_binop(*tok),
{
    match tok {
        Token::Punct(p) => match p {
            Punct::EqEq => true,
            Punct::Ne => true,
            Punct::Lt => true,
            Punct::Le => true,
            Punct::Gt => true,
            Punct::Ge => true,
            Punct::Star => true,
            Punct::Plus => true,
            Punct::Minus => true,
            Punct::Slash => true,
            _ => false,
        },
        _ => false,
    }
}

/// The owned copy of a character sequence. `str::to_owned` determines its
/// result from the characters alone, so the copy of a fixed spelling is one
/// value wherever it is taken; the parser uses this for a combinator
/// keyword standing as a column name.
pub uninterp spec fn owned_of(s: Seq<char>) -> String;

/// Relies on str::to_owned: the owned string depends on the characters
/// alone and holds exactly them.
#[verifier::external_body]
pub fn own_str(s: &str) -> (r: String)
    ensures
        r == owned_of(s@),
        r@ == s@,
{
    s.to_owned()
}

} // verus!
