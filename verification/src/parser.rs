use vstd::prelude::*;

use crate::ast::{
    assigns_view, bw_view, cc_view, cond_cc_view, cond_where_view, conds_view, joins_view,
    BoolOp, BoolWhere, Column, ColumnCondition, Conditional, Expr, ForLock, Join, JoinType,
    Ordering, Where, WhereOp,
};
use crate::error::{unexpected_at, Expected, ParseError};
use crate::grammar::{
    combinator_column, peek_kw, peek_punct, spec_assigns_rest, spec_columns_rest, spec_conds_rest, spec_expr_end,
    spec_idents_rest, spec_joins_rest, spec_orders_rest, spec_parse_assign, spec_parse_bool_op,
    spec_parse_column, spec_parse_column_list, spec_parse_conditional, spec_parse_expr, spec_parse_for_lock, spec_parse_group, spec_parse_guarded_leaf, spec_parse_guarded_leaf_from, spec_parse_ident, spec_parse_int,
    spec_parse_join, spec_parse_join_type, spec_parse_leaf, spec_parse_leaf_from,
    spec_parse_order_entry, spec_parse_ordering, spec_parse_returning,
    spec_parse_semicolon, spec_parse_where, spec_parse_where_clause, spec_parse_where_op,
};
use crate::token::{is_atom, is_binop, own_str, Keyword, Punct, Token};

verus! {

// ---------------------------------------------------------------------------
// Stream primitives.
// ---------------------------------------------------------------------------

/// Whether the token at `pos` is the keyword `k`.
pub fn peek_is_kw(t: &Vec<Token>, pos: usize, k: Keyword) -> (r: bool)
    ensures
        r == peek_kw(t@, pos as int, k),
        t@.len() <= usize::MAX,
{
    if pos < t.len() {
        match &t[pos] {
            Token::Kw(k2) => *k2 == k,
            _ => false,
        }
    } else {
        false
    }
}

/// Whether the token at `pos` is the punctuation `p`.
pub fn peek_is_punct(t: &Vec<Token>, pos: usize, p: Punct) -> (r: bool)
    ensures
        r == peek_punct(t@, pos as int, p),
        t@.len() <= usize::MAX,
{
    if pos < t.len() {
        match &t[pos] {
            Token::Punct(p2) => *p2 == p,
            _ => false,
        }
    } else {
        false
    }
}

/// One mandatory identifier.
pub fn parse_ident(t: &Vec<Token>, pos: usize) -> (r: Result<(String, usize), ParseError>)
    ensures
        ({
            let s = spec_parse_ident(t@, pos as int);
            match r {
                Ok((name, p)) => s == Ok::<_, ParseError>((name, p as int)) && pos < p <= t@.len(),
                Err(e) => s == Err::<(String, int), _>(e),
            }
        }),
{
    if pos < t.len() {
        match &t[pos] {
            Token::Ident(name) => Ok((name.clone(), pos + 1)),
            _ => Err(unexpected_at(t, pos, Expected::Identifier)),
        }
    } else {
        Err(unexpected_at(t, pos, Expected::Identifier))
    }
}

/// One mandatory integer literal.
pub fn parse_int(t: &Vec<Token>, pos: usize) -> (r: Result<(u128, usize), ParseError>)
    ensures
        ({
            let s = spec_parse_int(t@, pos as int);
            match r {
                Ok((n, p)) => s == Ok::<_, ParseError>((n, p as int)) && pos < p <= t@.len(),
                Err(e) => s == Err::<(u128, int), _>(e),
            }
        }),
{
    if pos < t.len() {
        match &t[pos] {
            Token::IntLit(n) => Ok((*n, pos + 1)),
            _ => Err(unexpected_at(t, pos, Expected::IntegerLiteral)),
        }
    } else {
        Err(unexpected_at(t, pos, Expected::IntegerLiteral))
    }
}

/// Copies the tokens of `t` in `[a, b)`.
pub fn copy_range(t: &Vec<Token>, a: usize, b: usize) -> (v: Vec<Token>)
    requires
        a <= b <= t@.len(),
    ensures
        v@ == t@.subrange(a as int, b as int),
{
    let mut v: Vec<Token> = Vec::new();
    let mut i = a;
    proof {
        assert(t@.subrange(a as int, a as int) =~= Seq::<Token>::empty());
    }
    while i < b
        invariant
            a <= i <= b <= t@.len(),
            v@ == t@.subrange(a as int, i as int),
        decreases b - i,
    {
        v.push(t[i].dup());
        proof {
            assert(t@.subrange(a as int, (i + 1) as int) =~= t@.subrange(a as int, i as int).push(
                t@[i as int],
            ));
        }
        i = i + 1;
    }
    v
}

// ---------------------------------------------------------------------------
// Primitive keyword-to-enum parsers.
// ---------------------------------------------------------------------------

impl BoolOp {
    /// `AND` or `OR`.
    pub fn parse(t: &Vec<Token>, pos: usize) -> (r: Result<(BoolOp, usize), ParseError>)
        ensures
            ({
                let s = spec_parse_bool_op(t@, pos as int);
                match r {
                    Ok((v, p)) => s == Ok::<_, ParseError>((v, p as int)) && pos < p <= t@.len(),
                    Err(e) => s == Err::<(BoolOp, int), _>(e),
                }
            }),
    {
        if peek_is_kw(t, pos, Keyword::And) {
            Ok((BoolOp::And, pos + 1))
        } else if peek_is_kw(t, pos, Keyword::Or) {
            Ok((BoolOp::Or, pos + 1))
        } else {
            Err(unexpected_at(t, pos, Expected::Combinator))
        }
    }
}

impl Ordering {
    /// `ASC` or `DESC`.
    pub fn parse(t: &Vec<Token>, pos: usize) -> (r: Result<(Ordering, usize), ParseError>)
        ensures
            ({
                let s = spec_parse_ordering(t@, pos as int);
                match r {
                    Ok((v, p)) => s == Ok::<_, ParseError>((v, p as int)) && pos < p <= t@.len(),
                    Err(e) => s == Err::<(Ordering, int), _>(e),
                }
            }),
    {
        if peek_is_kw(t, pos, Keyword::Asc) {
            Ok((Ordering::Asc, pos + 1))
        } else if peek_is_kw(t, pos, Keyword::Desc) {
            Ok((Ordering::Desc, pos + 1))
        } else {
            Err(unexpected_at(t, pos, Expected::OrderDirection))
        }
    }
}

impl ForLock {
    /// `UPDATE` or `SHARE`.
    pub fn parse(t: &Vec<Token>, pos: usize) -> (r: Result<(ForLock, usize), ParseError>)
        ensures
            ({
                let s = spec_parse_for_lock(t@, pos as int);
                match r {
                    Ok((v, p)) => s == Ok::<_, ParseError>((v, p as int)) && pos < p <= t@.len(),
                    Err(e) => s == Err::<(ForLock, int), _>(e),
                }
            }),
    {
        if peek_is_kw(t, pos, Keyword::Update) {
            Ok((ForLock::Update, pos + 1))
        } else if peek_is_kw(t, pos, Keyword::Share) {
            Ok((ForLock::Share, pos + 1))
        } else {
            Err(unexpected_at(t, pos, Expected::LockKind))
        }
    }
}

impl JoinType {
    /// `INNER`, `LEFT`, `RIGHT` or `FULL`.
    pub fn parse(t: &Vec<Token>, pos: usize) -> (r: Result<(JoinType, usize), ParseError>)
        ensures
            ({
                let s = spec_parse_join_type(t@, pos as int);
                match r {
                    Ok((v, p)) => s == Ok::<_, ParseError>((v, p as int)) && pos < p <= t@.len(),
                    Err(e) => s == Err::<(JoinType, int), _>(e),
                }
            }),
    {
        if peek_is_kw(t, pos, Keyword::Inner) {
            Ok((JoinType::Inner, pos + 1))
        } else if peek_is_kw(t, pos, Keyword::Left) {
            Ok((JoinType::Left, pos + 1))
        } else if peek_is_kw(t, pos, Keyword::Right) {
            Ok((JoinType::Right, pos + 1))
        } else if peek_is_kw(t, pos, Keyword::Full) {
            Ok((JoinType::Full, pos + 1))
        } else {
            Err(unexpected_at(t, pos, Expected::JoinKind))
        }
    }
}

impl WhereOp {
    /// A comparison operator, including the two-keyword `NOT LIKE` and
    /// `NOT IN` forms.
    pub fn parse(t: &Vec<Token>, pos: usize) -> (r: Result<(WhereOp, usize), ParseError>)
        ensures
            ({
                let s = spec_parse_where_op(t@, pos as int);
                match r {
                    Ok((v, p)) => s == Ok::<_, ParseError>((v, p as int)) && pos < p <= t@.len(),
                    Err(e) => s == Err::<(WhereOp, int), _>(e),
                }
            }),
    {
        if peek_is_punct(t, pos, Punct::EqEq) {
            Ok((WhereOp::Eq, pos + 1))
        } else if peek_is_punct(t, pos, Punct::Ne) {
            Ok((WhereOp::Ne, pos + 1))
        } else if peek_is_punct(t, pos, Punct::Ge) {
            Ok((WhereOp::Ge, pos + 1))
        } else if peek_is_punct(t, pos, Punct::Gt) {
            Ok((WhereOp::Gt, pos + 1))
        } else if peek_is_punct(t, pos, Punct::Le) {
            Ok((WhereOp::Le, pos + 1))
        } else if peek_is_punct(t, pos, Punct::Lt) {
            Ok((WhereOp::Lt, pos + 1))
        } else if peek_is_kw(t, pos, Keyword::Like) {
            Ok((WhereOp::Like, pos + 1))
        } else if peek_is_kw(t, pos, Keyword::Not) && peek_is_kw(t, pos + 1, Keyword::Like) {
            Ok((WhereOp::NotLike, pos + 2))
        } else if peek_is_kw(t, pos, Keyword::In) {
            Ok((WhereOp::In, pos + 1))
        } else if peek_is_kw(t, pos, Keyword::Not) && peek_is_kw(t, pos + 1, Keyword::In) {
            Ok((WhereOp::NotIn, pos + 2))
        } else {
            Err(unexpected_at(t, pos, Expected::Comparison))
        }
    }
}

impl Column {
    /// A column reference: `*`, or a name with an optional `AS alias`.
    pub fn parse(t: &Vec<Token>, pos: usize) -> (r: Result<(Column, usize), ParseError>)
        ensures
            ({
                let s = spec_parse_column(t@, pos as int);
                match r {
                    Ok((v, p)) => s == Ok::<_, ParseError>((v, p as int)) && pos < p <= t@.len(),
                    Err(e) => s == Err::<(Column, int), _>(e),
                }
            }),
    {
        if pos < t.len() {
            match &t[pos] {
                Token::Ident(name) => if peek_is_kw(t, pos + 1, Keyword::As) {
                    match parse_ident(t, pos + 2) {
                        Ok((alias, p)) => Ok((Column::Named(name.clone(), Some(alias)), p)),
                        Err(e) => Err(e),
                    }
                } else {
                    Ok((Column::Named(name.clone(), None), pos + 1))
                },
                Token::Punct(Punct::Star) => Ok((Column::All, pos + 1)),
                _ => Err(unexpected_at(t, pos, Expected::ColumnRef)),
            }
        } else {
            Err(unexpected_at(t, pos, Expected::ColumnRef))
        }
    }
}

// ---------------------------------------------------------------------------
// The value-expression delegate.
// ---------------------------------------------------------------------------

impl Expr {
    /// Consumes one value expression: an operand, then greedily any number
    /// of operator/operand pairs. The consumed tokens are stored opaquely.
    pub fn parse(t: &Vec<Token>, pos: usize) -> (r: Result<(Expr, usize), ParseError>)
        ensures
            ({
                let s = spec_parse_expr(t@, pos as int);
                match r {
                    Ok((e, p)) => s == Ok::<_, ParseError>((e@, p as int)) && pos < p <= t@.len(),
                    Err(e) => s == Err::<(Seq<Token>, int), _>(e),
                }
            }),
    {
        if pos < t.len() && is_atom(&t[pos]) {
            let mut end = pos + 1;
            while end < t.len() - 1 && is_binop(&t[end]) && is_atom(&t[end + 1])
                invariant
                    pos < end <= t@.len(),
                    t@.len() >= 1,
                    spec_expr_end(t@, pos as int + 1) == spec_expr_end(t@, end as int),
                decreases t@.len() - end,
            {
                end = end + 2;
            }
            let tokens = copy_range(t, pos, end);
            Ok((Expr { tokens }, end))
        } else {
            Err(unexpected_at(t, pos, Expected::ValueExpr))
        }
    }
}

// ---------------------------------------------------------------------------
// Brace-delimited comma-separated lists.
// ---------------------------------------------------------------------------

/// Entries of a column list, after the opening brace.
pub fn parse_columns_rest(t: &Vec<Token>, pos: usize, acc: Vec<Column>) -> (r: Result<
    (Vec<Column>, usize),
    ParseError,
>)
    ensures
        ({
            let s = spec_columns_rest(t@, pos as int, acc@);
            match r {
                Ok((v, p)) => s == Ok::<_, ParseError>((v@, p as int)) && pos < p <= t@.len(),
                Err(e) => s == Err::<(Seq<Column>, int), _>(e),
            }
        }),
    decreases t@.len() - pos,
{
    if pos >= t.len() {
        return Err(unexpected_at(t, pos, Expected::ColumnRef));
    }
    if peek_is_punct(t, pos, Punct::RBrace) {
        return Ok((acc, pos + 1));
    }
    match Column::parse(t, pos) {
        Err(e) => Err(e),
        Ok((c, p)) => {
            let mut acc2 = acc;
            acc2.push(c);
            if peek_is_punct(t, p, Punct::Comma) {
                parse_columns_rest(t, p + 1, acc2)
            } else if peek_is_punct(t, p, Punct::RBrace) {
                Ok((acc2, p + 1))
            } else {
                Err(unexpected_at(t, p, Expected::ListSep))
            }
        },
    }
}

/// `{` then a column list.
pub fn parse_column_list(t: &Vec<Token>, pos: usize) -> (r: Result<
    (Vec<Column>, usize),
    ParseError,
>)
    ensures
        ({
            let s = spec_parse_column_list(t@, pos as int);
            match r {
                Ok((v, p)) => s == Ok::<_, ParseError>((v@, p as int)) && pos < p <= t@.len(),
                Err(e) => s == Err::<(Seq<Column>, int), _>(e),
            }
        }),
{
    if peek_is_punct(t, pos, Punct::LBrace) {
        parse_columns_rest(t, pos + 1, Vec::new())
    } else {
        Err(unexpected_at(t, pos, Expected::Punct(Punct::LBrace)))
    }
}

/// Entries of a group-by list, after the opening brace.
pub fn parse_idents_rest(t: &Vec<Token>, pos: usize, acc: Vec<String>) -> (r: Result<
    (Vec<String>, usize),
    ParseError,
>)
    ensures
        ({
            let s = spec_idents_rest(t@, pos as int, acc@);
            match r {
                Ok((v, p)) => s == Ok::<_, ParseError>((v@, p as int)) && pos < p <= t@.len(),
                Err(e) => s == Err::<(Seq<String>, int), _>(e),
            }
        }),
    decreases t@.len() - pos,
{
    if pos >= t.len() {
        return Err(unexpected_at(t, pos, Expected::Identifier));
    }
    if peek_is_punct(t, pos, Punct::RBrace) {
        return Ok((acc, pos + 1));
    }
    match parse_ident(t, pos) {
        Err(e) => Err(e),
        Ok((name, p)) => {
            let mut acc2 = acc;
            acc2.push(name);
            if peek_is_punct(t, p, Punct::Comma) {
                parse_idents_rest(t, p + 1, acc2)
            } else if peek_is_punct(t, p, Punct::RBrace) {
                Ok((acc2, p + 1))
            } else {
                Err(unexpected_at(t, p, Expected::ListSep))
            }
        },
    }
}

/// One order-by entry: a column name and a direction.
pub fn parse_order_entry(t: &Vec<Token>, pos: usize) -> (r: Result<
    ((String, Ordering), usize),
    ParseError,
>)
    ensures
        ({
            let s = spec_parse_order_entry(t@, pos as int);
            match r {
                Ok((v, p)) => s == Ok::<_, ParseError>((v, p as int)) && pos < p <= t@.len(),
                Err(e) => s == Err::<((String, Ordering), int), _>(e),
            }
        }),
{
    match parse_ident(t, pos) {
        Err(e) => Err(e),
        Ok((name, p)) => match Ordering::parse(t, p) {
            Err(e) => Err(e),
            Ok((ord, p2)) => Ok(((name, ord), p2)),
        },
    }
}

/// Entries of an order-by list, after the opening brace.
pub fn parse_orders_rest(t: &Vec<Token>, pos: usize, acc: Vec<(String, Ordering)>) -> (r: Result<
    (Vec<(String, Ordering)>, usize),
    ParseError,
>)
    ensures
        ({
            let s = spec_orders_rest(t@, pos as int, acc@);
            match r {
                Ok((v, p)) => s == Ok::<_, ParseError>((v@, p as int)) && pos < p <= t@.len(),
                Err(e) => s == Err::<(Seq<(String, Ordering)>, int), _>(e),
            }
        }),
    decreases t@.len() - pos,
{
    if pos >= t.len() {
        return Err(unexpected_at(t, pos, Expected::Identifier));
    }
    if peek_is_punct(t, pos, Punct::RBrace) {
        return Ok((acc, pos + 1));
    }
    match parse_order_entry(t, pos) {
        Err(e) => Err(e),
        Ok((entry, p)) => {
            let mut acc2 = acc;
            acc2.push(entry);
            if peek_is_punct(t, p, Punct::Comma) {
                parse_orders_rest(t, p + 1, acc2)
            } else if peek_is_punct(t, p, Punct::RBrace) {
                Ok((acc2, p + 1))
            } else {
                Err(unexpected_at(t, p, Expected::ListSep))
            }
        },
    }
}

/// One assignment entry: `name = expression`.
pub fn parse_assign(t: &Vec<Token>, pos: usize) -> (r: Result<
    ((String, Expr), usize),
    ParseError,
>)
    ensures
        ({
            let s = spec_parse_assign(t@, pos as int);
            match r {
                Ok((v, p)) => s == Ok::<_, ParseError>(((v.0, v.1@), p as int)) && pos < p
                    <= t@.len(),
                Err(e) => s == Err::<((String, Seq<Token>), int), _>(e),
            }
        }),
{
    match parse_ident(t, pos) {
        Err(e) => Err(e),
        Ok((name, p)) => if peek_is_punct(t, p, Punct::Assign) {
            match Expr::parse(t, p + 1) {
                Err(e) => Err(e),
                Ok((e, p2)) => Ok(((name, e), p2)),
            }
        } else {
            Err(unexpected_at(t, p, Expected::Punct(Punct::Assign)))
        },
    }
}

/// Entries of an assignment list, after the opening brace.
pub fn parse_assigns_rest(t: &Vec<Token>, pos: usize, acc: Vec<(String, Expr)>) -> (r: Result<
    (Vec<(String, Expr)>, usize),
    ParseError,
>)
    ensures
        ({
            let s = spec_assigns_rest(t@, pos as int, assigns_view(acc@));
            match r {
                Ok((v, p)) => s == Ok::<_, ParseError>((assigns_view(v@), p as int)) && pos < p
                    <= t@.len(),
                Err(e) => s == Err::<(Seq<(String, Seq<Token>)>, int), _>(e),
            }
        }),
    decreases t@.len() - pos,
{
    if pos >= t.len() {
        return Err(unexpected_at(t, pos, Expected::Identifier));
    }
    if peek_is_punct(t, pos, Punct::RBrace) {
        return Ok((acc, pos + 1));
    }
    match parse_assign(t, pos) {
        Err(e) => Err(e),
        Ok((entry, p)) => {
            let ghost entry_v = (entry.0, entry.1@);
            let mut acc2 = acc;
            acc2.push(entry);
            proof {
                assert(acc2@.drop_last() =~= acc@);
                assert(assigns_view(acc2@) =~= assigns_view(acc@).push(entry_v));
            }
            if peek_is_punct(t, p, Punct::Comma) {
                parse_assigns_rest(t, p + 1, acc2)
            } else if peek_is_punct(t, p, Punct::RBrace) {
                Ok((acc2, p + 1))
            } else {
                Err(unexpected_at(t, p, Expected::ListSep))
            }
        },
    }
}

impl Join {
    /// One join entry: kind, optional `OUTER`, `JOIN`, table, `ON`,
    /// predicate expression.
    pub fn parse(t: &Vec<Token>, pos: usize) -> (r: Result<(Join, usize), ParseError>)
        ensures
            ({
                let s = spec_parse_join(t@, pos as int);
                match r {
                    Ok((v, p)) => s == Ok::<_, ParseError>((v@, p as int)) && pos < p <= t@.len(),
                    Err(e) => s == Err::<(crate::ast::JoinV, int), _>(e),
                }
            }),
    {
        match JoinType::parse(t, pos) {
            Err(e) => Err(e),
            Ok((join_type, p1)) => {
                let outer = peek_is_kw(t, p1, Keyword::Outer);
                let p2 = if outer {
                    p1 + 1
                } else {
                    p1
                };
                if peek_is_kw(t, p2, Keyword::Join) {
                    match parse_ident(t, p2 + 1) {
                        Err(e) => Err(e),
                        Ok((table, p3)) => if peek_is_kw(t, p3, Keyword::On) {
                            match Expr::parse(t, p3 + 1) {
                                Err(e) => Err(e),
                                Ok((on, p4)) => Ok((Join { table, on, join_type, outer }, p4)),
                            }
                        } else {
                            Err(unexpected_at(t, p3, Expected::Keyword(Keyword::On)))
                        },
                    }
                } else {
                    Err(unexpected_at(t, p2, Expected::Keyword(Keyword::Join)))
                }
            },
        }
    }
}

/// Entries of a join list, after the opening brace.
pub fn parse_joins_rest(t: &Vec<Token>, pos: usize, acc: Vec<Join>) -> (r: Result<
    (Vec<Join>, usize),
    ParseError,
>)
    ensures
        ({
            let s = spec_joins_rest(t@, pos as int, joins_view(acc@));
            match r {
                Ok((v, p)) => s == Ok::<_, ParseError>((joins_view(v@), p as int)) && pos < p
                    <= t@.len(),
                Err(e) => s == Err::<(Seq<crate::ast::JoinV>, int), _>(e),
            }
        }),
    decreases t@.len() - pos,
{
    if pos >= t.len() {
        return Err(unexpected_at(t, pos, Expected::JoinKind));
    }
    if peek_is_punct(t, pos, Punct::RBrace) {
        return Ok((acc, pos + 1));
    }
    match Join::parse(t, pos) {
        Err(e) => Err(e),
        Ok((j, p)) => {
            let ghost jv = j@;
            let mut acc2 = acc;
            acc2.push(j);
            proof {
                assert(acc2@.drop_last() =~= acc@);
                assert(joins_view(acc2@) =~= joins_view(acc@).push(jv));
            }
            if peek_is_punct(t, p, Punct::Comma) {
                parse_joins_rest(t, p + 1, acc2)
            } else if peek_is_punct(t, p, Punct::RBrace) {
                Ok((acc2, p + 1))
            } else {
                Err(unexpected_at(t, p, Expected::ListSep))
            }
        },
    }
}

// ---------------------------------------------------------------------------
// The condition tree.
// ---------------------------------------------------------------------------

/// The tail of a condition leaf whose column name is already in hand:
/// comparison operator, then value expression.
pub fn parse_leaf_from(t: &Vec<Token>, pos: usize, column: String) -> (r: Result<
    (ColumnCondition, usize),
    ParseError,
>)
    ensures
        ({
            let s = spec_parse_leaf_from(t@, pos as int, column);
            match r {
                Ok((v, p)) => s == Ok::<_, ParseError>((cc_view(v), p as int)) && pos < p
                    <= t@.len(),
                Err(e) => s == Err::<(crate::ast::ColumnConditionV, int), _>(e),
            }
        }),
{
    match WhereOp::parse(t, pos) {
        Err(e) => Err(e),
        Ok((op, p2)) => match Expr::parse(t, p2) {
            Err(e) => Err(e),
            Ok((value, p3)) => Ok((ColumnCondition { column, op, value }, p3)),
        },
    }
}

/// A leaf tail with its optional `if` guard.
pub fn parse_guarded_leaf_from(t: &Vec<Token>, pos: usize, column: String) -> (r: Result<
    (Conditional<ColumnCondition>, usize),
    ParseError,
>)
    ensures
        ({
            let s = spec_parse_guarded_leaf_from(t@, pos as int, column);
            match r {
                Ok((v, p)) => s == Ok::<_, ParseError>((cond_cc_view(v), p as int)) && pos < p
                    <= t@.len(),
                Err(e) => s == Err::<
                    (crate::ast::ConditionalV<crate::ast::ColumnConditionV>, int),
                    _,
                >(e),
            }
        }),
{
    match parse_leaf_from(t, pos, column) {
        Err(e) => Err(e),
        Ok((value, p)) => if peek_is_kw(t, p, Keyword::If) {
            match Expr::parse(t, p + 1) {
                Err(e) => Err(e),
                Ok((g, p2)) => Ok((Conditional { value, condition: Some(g) }, p2)),
            }
        } else {
            Ok((Conditional { value, condition: None }, p))
        },
    }
}

impl ColumnCondition {
    /// A condition leaf: column, comparison operator, value expression.
    pub fn parse(t: &Vec<Token>, pos: usize) -> (r: Result<(ColumnCondition, usize), ParseError>)
        ensures
            ({
                let s = spec_parse_leaf(t@, pos as int);
                match r {
                    Ok((v, p)) => s == Ok::<_, ParseError>((cc_view(v), p as int)) && pos < p
                        <= t@.len(),
                    Err(e) => s == Err::<(crate::ast::ColumnConditionV, int), _>(e),
                }
            }),
    {
        match parse_ident(t, pos) {
            Err(e) => Err(e),
            Ok((column, p1)) => parse_leaf_from(t, p1, column),
        }
    }
}

impl Conditional<ColumnCondition> {
    /// A leaf together with its optional `if` guard.
    pub fn parse(t: &Vec<Token>, pos: usize) -> (r: Result<
        (Conditional<ColumnCondition>, usize),
        ParseError,
    >)
        ensures
            ({
                let s = spec_parse_guarded_leaf(t@, pos as int);
                match r {
                    Ok((v, p)) => s == Ok::<_, ParseError>((cond_cc_view(v), p as int)) && pos < p
                        <= t@.len(),
                    Err(e) => s == Err::<
                        (crate::ast::ConditionalV<crate::ast::ColumnConditionV>, int),
                        _,
                    >(e),
                }
            }),
    {
        match parse_ident(t, pos) {
            Err(e) => Err(e),
            Ok((column, p1)) => parse_guarded_leaf_from(t, p1, column),
        }
    }
}

impl Where {
    /// One node of the tree: a group when the current token is `AND`/`OR`
    /// and the next a colon, otherwise a guarded leaf opened by an
    /// identifier.
    pub fn parse(t: &Vec<Token>, pos: usize) -> (r: Result<(Where, usize), ParseError>)
        ensures
            ({
                let s = spec_parse_where(t@, pos as int);
                match r {
                    Ok((v, p)) => s == Ok::<_, ParseError>((v@, p as int)) && pos < p <= t@.len(),
                    Err(e) => s == Err::<(crate::ast::WhereV, int), _>(e),
                }
            }),
        decreases t@.len() - pos, 1int,
    {
        if (peek_is_kw(t, pos, Keyword::And) || peek_is_kw(t, pos, Keyword::Or)) && peek_is_punct(
            t,
            pos + 1,
            Punct::Colon,
        ) {
            match BoolWhere::parse(t, pos) {
                Err(e) => Err(e),
                Ok((g, p)) => Ok((Where::BoolWhere(g), p)),
            }
        } else if peek_is_kw(t, pos, Keyword::And) {
            let column = own_str("AND");
            match parse_guarded_leaf_from(t, pos + 1, column) {
                Err(e) => Err(e),
                Ok((c, p)) => Ok((Where::Column(c), p)),
            }
        } else if peek_is_kw(t, pos, Keyword::Or) {
            let column = own_str("OR");
            match parse_guarded_leaf_from(t, pos + 1, column) {
                Err(e) => Err(e),
                Ok((c, p)) => Ok((Where::Column(c), p)),
            }
        } else if pos < t.len() && (matches!(&t[pos], Token::Ident(_))) {
            match Conditional::<ColumnCondition>::parse(t, pos) {
                Err(e) => Err(e),
                Ok((c, p)) => Ok((Where::Column(c), p)),
            }
        } else {
            Err(unexpected_at(t, pos, Expected::ConditionStart))
        }
    }
}

impl BoolWhere {
    /// A group: combinator, colon, braced list of guarded children.
    pub fn parse(t: &Vec<Token>, pos: usize) -> (r: Result<(BoolWhere, usize), ParseError>)
        ensures
            ({
                let s = spec_parse_group(t@, pos as int);
                match r {
                    Ok((v, p)) => s == Ok::<_, ParseError>((bw_view(v), p as int)) && pos < p
                        <= t@.len(),
                    Err(e) => s == Err::<(crate::ast::BoolWhereV, int), _>(e),
                }
            }),
        decreases t@.len() - pos, 0int,
    {
        match BoolOp::parse(t, pos) {
            Err(e) => Err(e),
            Ok((op, p1)) => if peek_is_punct(t, p1, Punct::Colon) {
                if peek_is_punct(t, p1 + 1, Punct::LBrace) {
                    match parse_conds_rest(t, p1 + 2, Vec::new()) {
                        Err(e) => Err(e),
                        Ok((conditions, p2)) => Ok((BoolWhere { op, conditions }, p2)),
                    }
                } else {
                    Err(unexpected_at(t, p1 + 1, Expected::Punct(Punct::LBrace)))
                }
            } else {
                Err(unexpected_at(t, p1, Expected::Punct(Punct::Colon)))
            },
        }
    }
}

impl Conditional<Where> {
    /// One group child: a node with its optional `if` guard.
    pub fn parse(t: &Vec<Token>, pos: usize) -> (r: Result<
        (Conditional<Where>, usize),
        ParseError,
    >)
        ensures
            ({
                let s = spec_parse_conditional(t@, pos as int);
                match r {
                    Ok((v, p)) => s == Ok::<_, ParseError>((cond_where_view(v), p as int)) && pos
                        < p <= t@.len(),
                    Err(e) => s == Err::<
                        (crate::ast::ConditionalV<crate::ast::WhereV>, int),
                        _,
                    >(e),
                }
            }),
        decreases t@.len() - pos, 2int,
    {
        match Where::parse(t, pos) {
            Err(e) => Err(e),
            Ok((value, p)) => if peek_is_kw(t, p, Keyword::If) {
                match Expr::parse(t, p + 1) {
                    Err(e) => Err(e),
                    Ok((g, p2)) => Ok((Conditional { value, condition: Some(g) }, p2)),
                }
            } else {
                Ok((Conditional { value, condition: None }, p))
            },
        }
    }
}

/// The children of a group, after the opening brace.
pub fn parse_conds_rest(t: &Vec<Token>, pos: usize, acc: Vec<Conditional<Where>>) -> (r: Result<
    (Vec<Conditional<Where>>, usize),
    ParseError,
>)
    ensures
        ({
            let s = spec_conds_rest(t@, pos as int, conds_view(acc@));
            match r {
                Ok((v, p)) => s == Ok::<_, ParseError>((conds_view(v@), p as int)) && pos < p
                    <= t@.len(),
                Err(e) => s == Err::<
                    (Seq<crate::ast::ConditionalV<crate::ast::WhereV>>, int),
                    _,
                >(e),
            }
        }),
    decreases t@.len() - pos, 3int,
{
    if pos >= t.len() {
        return Err(unexpected_at(t, pos, Expected::ConditionStart));
    }
    if peek_is_punct(t, pos, Punct::RBrace) {
        return Ok((acc, pos + 1));
    }
    match Conditional::<Where>::parse(t, pos) {
        Err(e) => Err(e),
        Ok((c, p)) => {
            let ghost cv = cond_where_view(c);
            let mut acc2 = acc;
            acc2.push(c);
            proof {
                assert(acc2@.drop_last() =~= acc@);
                assert(conds_view(acc2@) =~= conds_view(acc@).push(cv));
            }
            if peek_is_punct(t, p, Punct::Comma) {
                parse_conds_rest(t, p + 1, acc2)
            } else if peek_is_punct(t, p, Punct::RBrace) {
                Ok((acc2, p + 1))
            } else {
                Err(unexpected_at(t, p, Expected::ListSep))
            }
        },
    }
}

// ---------------------------------------------------------------------------
// Clauses.
// ---------------------------------------------------------------------------

/// An optional `WHERE` clause.
pub fn parse_where(t: &Vec<Token>, pos: usize) -> (r: Result<
    (Option<Where>, usize),
    ParseError,
>)
    requires
        pos <= t@.len(),
    ensures
        ({
            let s = spec_parse_where_clause(t@, pos as int);
            match r {
                Ok((v, p)) => s == Ok::<_, ParseError>((crate::ast::opt_where_view(v), p as int))
                    && pos <= p <= t@.len(),
                Err(e) => s == Err::<(Option<crate::ast::WhereV>, int), _>(e),
            }
        }),
{
    if peek_is_kw(t, pos, Keyword::Where) {
        match Where::parse(t, pos + 1) {
            Err(e) => Err(e),
            Ok((w, p)) => Ok((Some(w), p)),
        }
    } else {
        Ok((None, pos))
    }
}

/// An optional `RETURNING` clause; absence yields the empty list.
pub fn parse_returning(t: &Vec<Token>, pos: usize) -> (r: Result<
    (Vec<Column>, usize),
    ParseError,
>)
    requires
        pos <= t@.len(),
    ensures
        ({
            let s = spec_parse_returning(t@, pos as int);
            match r {
                Ok((v, p)) => s == Ok::<_, ParseError>((v@, p as int)) && pos <= p <= t@.len(),
                Err(e) => s == Err::<(Seq<Column>, int), _>(e),
            }
        }),
{
    if peek_is_kw(t, pos, Keyword::Returning) {
        parse_column_list(t, pos + 1)
    } else {
        let v: Vec<Column> = Vec::new();
        Ok((v, pos))
    }
}

/// An optional trailing terminator; its absence is never an error.
pub fn parse_semicolon(t: &Vec<Token>, pos: usize) -> (p: usize)
    requires
        pos <= t@.len(),
    ensures
        p as int == spec_parse_semicolon(t@, pos as int),
        pos <= p <= t@.len(),
{
    if peek_is_punct(t, pos, Punct::Semicolon) {
        pos + 1
    } else {
        pos
    }
}

} // verus!
