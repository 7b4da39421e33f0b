use vstd::prelude::*;

use crate::ast::{
    BoolOp, BoolWhereV, Column, ColumnConditionV, ConditionalV, ForLock, JoinType, JoinV, Ordering,
    QueryV, WhereOp, WhereV,
};
use crate::error::{spec_unexpected, Expected, ParseError};
use crate::token::{owned_of, spec_is_atom, spec_is_binop, Keyword, Punct, Token};

verus! {

// ---------------------------------------------------------------------------
// The grammar, written as total specification-level parsing functions over a
// token sequence and a position. Every executable parser is proved to return
// exactly what these functions say: which statement an input parses to, how
// far the parse advances, and which structured error a rejected input earns.
// ---------------------------------------------------------------------------

/// The token at `pos` is the keyword `k`.
pub open spec fn peek_kw(t: Seq<Token>, pos: int, k: Keyword) -> bool {
    0 <= pos < t.len() && t[pos] == Token::Kw(k)
}

/// The token at `pos` is the punctuation `p`.
pub open spec fn peek_punct(t: Seq<Token>, pos: int, p: Punct) -> bool {
    0 <= pos < t.len() && t[pos] == Token::Punct(p)
}

/// The next position of a list walk after an entry ended at `p`. On every
/// position the entry parsers actually return this equals `p + 1`; the
/// clamping only keeps the recursion measure of the list functions inside
/// the stream without appeal to the entry parsers' bounds.
pub open spec fn step_pos(p: int, pos: int, len: int) -> int {
    let q = if p < pos {
        pos + 1
    } else {
        p + 1
    };
    if q > len {
        len
    } else {
        q
    }
}

/// One mandatory identifier token.
pub open spec fn spec_parse_ident(t: Seq<Token>, pos: int) -> Result<(String, int), ParseError> {
    if 0 <= pos < t.len() {
        match t[pos] {
            Token::Ident(name) => Ok((name, pos + 1)),
            _ => Err(spec_unexpected(t, pos, Expected::Identifier)),
        }
    } else {
        Err(spec_unexpected(t, pos, Expected::Identifier))
    }
}

/// One mandatory integer literal token.
pub open spec fn spec_parse_int(t: Seq<Token>, pos: int) -> Result<(u128, int), ParseError> {
    if 0 <= pos < t.len() {
        match t[pos] {
            Token::IntLit(n) => Ok((n, pos + 1)),
            _ => Err(spec_unexpected(t, pos, Expected::IntegerLiteral)),
        }
    } else {
        Err(spec_unexpected(t, pos, Expected::IntegerLiteral))
    }
}

/// `AND` or `OR` opening a condition group.
pub open spec fn spec_parse_bool_op(t: Seq<Token>, pos: int) -> Result<(BoolOp, int), ParseError> {
    if peek_kw(t, pos, Keyword::And) {
        Ok((BoolOp::And, pos + 1))
    } else if peek_kw(t, pos, Keyword::Or) {
        Ok((BoolOp::Or, pos + 1))
    } else {
        Err(spec_unexpected(t, pos, Expected::Combinator))
    }
}

/// `ASC` or `DESC` after an order-by column.
pub open spec fn spec_parse_ordering(t: Seq<Token>, pos: int) -> Result<
    (Ordering, int),
    ParseError,
> {
    if peek_kw(t, pos, Keyword::Asc) {
        Ok((Ordering::Asc, pos + 1))
    } else if peek_kw(t, pos, Keyword::Desc) {
        Ok((Ordering::Desc, pos + 1))
    } else {
        Err(spec_unexpected(t, pos, Expected::OrderDirection))
    }
}

/// `UPDATE` or `SHARE` after `FOR`.
pub open spec fn spec_parse_for_lock(t: Seq<Token>, pos: int) -> Result<
    (ForLock, int),
    ParseError,
> {
    if peek_kw(t, pos, Keyword::Update) {
        Ok((ForLock::Update, pos + 1))
    } else if peek_kw(t, pos, Keyword::Share) {
        Ok((ForLock::Share, pos + 1))
    } else {
        Err(spec_unexpected(t, pos, Expected::LockKind))
    }
}

/// `INNER`, `LEFT`, `RIGHT` or `FULL` opening a join entry.
pub open spec fn spec_parse_join_type(t: Seq<Token>, pos: int) -> Result<
    (JoinType, int),
    ParseError,
> {
    if peek_kw(t, pos, Keyword::Inner) {
        Ok((JoinType::Inner, pos + 1))
    } else if peek_kw(t, pos, Keyword::Left) {
        Ok((JoinType::Left, pos + 1))
    } else if peek_kw(t, pos, Keyword::Right) {
        Ok((JoinType::Right, pos + 1))
    } else if peek_kw(t, pos, Keyword::Full) {
        Ok((JoinType::Full, pos + 1))
    } else {
        Err(spec_unexpected(t, pos, Expected::JoinKind))
    }
}

/// A comparison operator. `NOT LIKE` and `NOT IN` are the two-keyword forms,
/// recognised by peeking the token after `NOT`; a lone `NOT` matches no
/// alternative and fails.
pub open spec fn spec_parse_where_op(t: Seq<Token>, pos: int) -> Result<
    (WhereOp, int),
    ParseError,
> {
    if peek_punct(t, pos, Punct::EqEq) {
        Ok((WhereOp::Eq, pos + 1))
    } else if peek_punct(t, pos, Punct::Ne) {
        Ok((WhereOp::Ne, pos + 1))
    } else if peek_punct(t, pos, Punct::Ge) {
        Ok((WhereOp::Ge, pos + 1))
    } else if peek_punct(t, pos, Punct::Gt) {
        Ok((WhereOp::Gt, pos + 1))
    } else if peek_punct(t, pos, Punct::Le) {
        Ok((WhereOp::Le, pos + 1))
    } else if peek_punct(t, pos, Punct::Lt) {
        Ok((WhereOp::Lt, pos + 1))
    } else if peek_kw(t, pos, Keyword::Like) {
        Ok((WhereOp::Like, pos + 1))
    } else if peek_kw(t, pos, Keyword::Not) && peek_kw(t, pos + 1, Keyword::Like) {
        Ok((WhereOp::NotLike, pos + 2))
    } else if peek_kw(t, pos, Keyword::In) {
        Ok((WhereOp::In, pos + 1))
    } else if peek_kw(t, pos, Keyword::Not) && peek_kw(t, pos + 1, Keyword::In) {
        Ok((WhereOp::NotIn, pos + 2))
    } else {
        Err(spec_unexpected(t, pos, Expected::Comparison))
    }
}

/// A column reference: `*`, or a name with an optional `AS alias`.
pub open spec fn spec_parse_column(t: Seq<Token>, pos: int) -> Result<(Column, int), ParseError> {
    if 0 <= pos < t.len() {
        match t[pos] {
            Token::Ident(name) => if peek_kw(t, pos + 1, Keyword::As) {
                match spec_parse_ident(t, pos + 2) {
                    Ok((alias, p)) => Ok((Column::Named(name, Some(alias)), p)),
                    Err(e) => Err(e),
                }
            } else {
                Ok((Column::Named(name, None), pos + 1))
            },
            Token::Punct(Punct::Star) => Ok((Column::All, pos + 1)),
            _ => Err(spec_unexpected(t, pos, Expected::ColumnRef)),
        }
    } else {
        Err(spec_unexpected(t, pos, Expected::ColumnRef))
    }
}

// ---------------------------------------------------------------------------
// Value expressions. The delegate grammar is deliberately small: an operand
// (identifier or integer literal) followed by any number of binary-operator /
// operand pairs, consumed greedily. The statement grammar stores the
// consumed run of tokens opaquely and never interprets it.
// ---------------------------------------------------------------------------

/// Where a greedy operator/operand walk starting at `pos` stops.
pub open spec fn spec_expr_end(t: Seq<Token>, pos: int) -> int
    decreases t.len() - pos,
{
    if pos + 1 < t.len() && spec_is_binop(t[pos]) && spec_is_atom(t[pos + 1]) {
        spec_expr_end(t, pos + 2)
    } else {
        pos
    }
}

/// One value expression: the token run the delegate consumes at `pos`.
pub open spec fn spec_parse_expr(t: Seq<Token>, pos: int) -> Result<
    (Seq<Token>, int),
    ParseError,
> {
    if 0 <= pos < t.len() && spec_is_atom(t[pos]) {
        let end = spec_expr_end(t, pos + 1);
        Ok((t.subrange(pos, end), end))
    } else {
        Err(spec_unexpected(t, pos, Expected::ValueExpr))
    }
}

// ---------------------------------------------------------------------------
// Brace-delimited comma-separated lists. Each `..._rest` function walks the
// entries after the opening brace: an empty list, a trailing comma and a
// closing brace directly after an entry are all accepted.
// ---------------------------------------------------------------------------

/// Select-column and returning lists.
pub open spec fn spec_columns_rest(t: Seq<Token>, pos: int, acc: Seq<Column>) -> Result<
    (Seq<Column>, int),
    ParseError,
>
    decreases t.len() - pos,
{
    if !(0 <= pos < t.len()) {
        Err(spec_unexpected(t, pos, Expected::ColumnRef))
    } else if peek_punct(t, pos, Punct::RBrace) {
        Ok((acc, pos + 1))
    } else {
        match spec_parse_column(t, pos) {
            Err(e) => Err(e),
            Ok((c, p)) => if peek_punct(t, p, Punct::Comma) {
                spec_columns_rest(t, step_pos(p, pos, t.len() as int), acc.push(c))
            } else if peek_punct(t, p, Punct::RBrace) {
                Ok((acc.push(c), p + 1))
            } else {
                Err(spec_unexpected(t, p, Expected::ListSep))
            },
        }
    }
}

/// `{` then a column list.
pub open spec fn spec_parse_column_list(t: Seq<Token>, pos: int) -> Result<
    (Seq<Column>, int),
    ParseError,
> {
    if peek_punct(t, pos, Punct::LBrace) {
        spec_columns_rest(t, pos + 1, Seq::empty())
    } else {
        Err(spec_unexpected(t, pos, Expected::Punct(Punct::LBrace)))
    }
}

/// Group-by lists: bare column names.
pub open spec fn spec_idents_rest(t: Seq<Token>, pos: int, acc: Seq<String>) -> Result<
    (Seq<String>, int),
    ParseError,
>
    decreases t.len() - pos,
{
    if !(0 <= pos < t.len()) {
        Err(spec_unexpected(t, pos, Expected::Identifier))
    } else if peek_punct(t, pos, Punct::RBrace) {
        Ok((acc, pos + 1))
    } else {
        match spec_parse_ident(t, pos) {
            Err(e) => Err(e),
            Ok((name, p)) => if peek_punct(t, p, Punct::Comma) {
                spec_idents_rest(t, step_pos(p, pos, t.len() as int), acc.push(name))
            } else if peek_punct(t, p, Punct::RBrace) {
                Ok((acc.push(name), p + 1))
            } else {
                Err(spec_unexpected(t, p, Expected::ListSep))
            },
        }
    }
}

/// One order-by entry: a column name and a direction.
pub open spec fn spec_parse_order_entry(t: Seq<Token>, pos: int) -> Result<
    ((String, Ordering), int),
    ParseError,
> {
    match spec_parse_ident(t, pos) {
        Err(e) => Err(e),
        Ok((name, p)) => match spec_parse_ordering(t, p) {
            Err(e) => Err(e),
            Ok((ord, p2)) => Ok(((name, ord), p2)),
        },
    }
}

/// Order-by lists.
pub open spec fn spec_orders_rest(t: Seq<Token>, pos: int, acc: Seq<(String, Ordering)>) -> Result<
    (Seq<(String, Ordering)>, int),
    ParseError,
>
    decreases t.len() - pos,
{
    if !(0 <= pos < t.len()) {
        Err(spec_unexpected(t, pos, Expected::Identifier))
    } else if peek_punct(t, pos, Punct::RBrace) {
        Ok((acc, pos + 1))
    } else {
        match spec_parse_order_entry(t, pos) {
            Err(e) => Err(e),
            Ok((entry, p)) => if peek_punct(t, p, Punct::Comma) {
                spec_orders_rest(t, step_pos(p, pos, t.len() as int), acc.push(entry))
            } else if peek_punct(t, p, Punct::RBrace) {
                Ok((acc.push(entry), p + 1))
            } else {
                Err(spec_unexpected(t, p, Expected::ListSep))
            },
        }
    }
}

/// One assignment entry: `name = expression`.
pub open spec fn spec_parse_assign(t: Seq<Token>, pos: int) -> Result<
    ((String, Seq<Token>), int),
    ParseError,
> {
    match spec_parse_ident(t, pos) {
        Err(e) => Err(e),
        Ok((name, p)) => if peek_punct(t, p, Punct::Assign) {
            match spec_parse_expr(t, p + 1) {
                Err(e) => Err(e),
                Ok((e, p2)) => Ok(((name, e), p2)),
            }
        } else {
            Err(spec_unexpected(t, p, Expected::Punct(Punct::Assign)))
        },
    }
}

/// Assignment lists of insert and update statements.
pub open spec fn spec_assigns_rest(
    t: Seq<Token>,
    pos: int,
    acc: Seq<(String, Seq<Token>)>,
) -> Result<(Seq<(String, Seq<Token>)>, int), ParseError>
    decreases t.len() - pos,
{
    if !(0 <= pos < t.len()) {
        Err(spec_unexpected(t, pos, Expected::Identifier))
    } else if peek_punct(t, pos, Punct::RBrace) {
        Ok((acc, pos + 1))
    } else {
        match spec_parse_assign(t, pos) {
            Err(e) => Err(e),
            Ok((entry, p)) => if peek_punct(t, p, Punct::Comma) {
                spec_assigns_rest(t, step_pos(p, pos, t.len() as int), acc.push(entry))
            } else if peek_punct(t, p, Punct::RBrace) {
                Ok((acc.push(entry), p + 1))
            } else {
                Err(spec_unexpected(t, p, Expected::ListSep))
            },
        }
    }
}

/// One join entry: kind, optional `OUTER`, `JOIN`, table, `ON`, predicate.
pub open spec fn spec_parse_join(t: Seq<Token>, pos: int) -> Result<(JoinV, int), ParseError> {
    match spec_parse_join_type(t, pos) {
        Err(e) => Err(e),
        Ok((join_type, p1)) => {
            let outer = peek_kw(t, p1, Keyword::Outer);
            let p2 = if outer {
                p1 + 1
            } else {
                p1
            };
            if peek_kw(t, p2, Keyword::Join) {
                match spec_parse_ident(t, p2 + 1) {
                    Err(e) => Err(e),
                    Ok((table, p3)) => if peek_kw(t, p3, Keyword::On) {
                        match spec_parse_expr(t, p3 + 1) {
                            Err(e) => Err(e),
                            Ok((on, p4)) => Ok((JoinV { table, on, join_type, outer }, p4)),
                        }
                    } else {
                        Err(spec_unexpected(t, p3, Expected::Keyword(Keyword::On)))
                    },
                }
            } else {
                Err(spec_unexpected(t, p2, Expected::Keyword(Keyword::Join)))
            }
        },
    }
}

/// Join lists.
pub open spec fn spec_joins_rest(t: Seq<Token>, pos: int, acc: Seq<JoinV>) -> Result<
    (Seq<JoinV>, int),
    ParseError,
>
    decreases t.len() - pos,
{
    if !(0 <= pos < t.len()) {
        Err(spec_unexpected(t, pos, Expected::JoinKind))
    } else if peek_punct(t, pos, Punct::RBrace) {
        Ok((acc, pos + 1))
    } else {
        match spec_parse_join(t, pos) {
            Err(e) => Err(e),
            Ok((j, p)) => if peek_punct(t, p, Punct::Comma) {
                spec_joins_rest(t, step_pos(p, pos, t.len() as int), acc.push(j))
            } else if peek_punct(t, p, Punct::RBrace) {
                Ok((acc.push(j), p + 1))
            } else {
                Err(spec_unexpected(t, p, Expected::ListSep))
            },
        }
    }
}

// ---------------------------------------------------------------------------
// The condition tree. A node is a group when and only when the current token
// is `AND`/`OR` and the next one a colon; otherwise an identifier opens a
// leaf. Every group child carries its own optional guard; a leaf's guard is
// attached to the leaf node itself.
// ---------------------------------------------------------------------------

/// The column name a combinator keyword stands for when no colon follows
/// it: the keyword's own spelling.
pub open spec fn combinator_column(k: Keyword) -> String {
    if k == Keyword::And {
        owned_of("AND"@)
    } else {
        owned_of("OR"@)
    }
}

/// The tail of a condition leaf whose column name is already in hand:
/// comparison operator, then value expression.
pub open spec fn spec_parse_leaf_from(t: Seq<Token>, pos: int, column: String) -> Result<
    (ColumnConditionV, int),
    ParseError,
> {
    match spec_parse_where_op(t, pos) {
        Err(e) => Err(e),
        Ok((op, p2)) => match spec_parse_expr(t, p2) {
            Err(e) => Err(e),
            Ok((value, p3)) => Ok((ColumnConditionV { column, op, value }, p3)),
        },
    }
}

/// A condition leaf: column, comparison, value expression.
pub open spec fn spec_parse_leaf(t: Seq<Token>, pos: int) -> Result<
    (ColumnConditionV, int),
    ParseError,
> {
    match spec_parse_ident(t, pos) {
        Err(e) => Err(e),
        Ok((column, p1)) => spec_parse_leaf_from(t, p1, column),
    }
}

/// A leaf tail with its optional `if` guard.
pub open spec fn spec_parse_guarded_leaf_from(t: Seq<Token>, pos: int, column: String) -> Result<
    (ConditionalV<ColumnConditionV>, int),
    ParseError,
> {
    match spec_parse_leaf_from(t, pos, column) {
        Err(e) => Err(e),
        Ok((value, p)) => if peek_kw(t, p, Keyword::If) {
            match spec_parse_expr(t, p + 1) {
                Err(e) => Err(e),
                Ok((g, p2)) => Ok((ConditionalV { value, condition: Some(g) }, p2)),
            }
        } else {
            Ok((ConditionalV { value, condition: None }, p))
        },
    }
}

/// A leaf with its optional `if` guard.
pub open spec fn spec_parse_guarded_leaf(t: Seq<Token>, pos: int) -> Result<
    (ConditionalV<ColumnConditionV>, int),
    ParseError,
> {
    match spec_parse_ident(t, pos) {
        Err(e) => Err(e),
        Ok((column, p1)) => spec_parse_guarded_leaf_from(t, p1, column),
    }
}

/// One node of the tree: group or guarded leaf. `AND`/`OR` are reserved
/// only when a colon follows; a bare combinator keyword opens a leaf whose
/// column name is its spelling.
pub open spec fn spec_parse_where(t: Seq<Token>, pos: int) -> Result<(WhereV, int), ParseError>
    decreases t.len() - pos, 1int,
{
    if (peek_kw(t, pos, Keyword::And) || peek_kw(t, pos, Keyword::Or)) && peek_punct(
        t,
        pos + 1,
        Punct::Colon,
    ) {
        match spec_parse_group(t, pos) {
            Err(e) => Err(e),
            Ok((g, p)) => Ok((WhereV::BoolWhere(g), p)),
        }
    } else if peek_kw(t, pos, Keyword::And) {
        match spec_parse_guarded_leaf_from(t, pos + 1, combinator_column(Keyword::And)) {
            Err(e) => Err(e),
            Ok((c, p)) => Ok((WhereV::Column(c), p)),
        }
    } else if peek_kw(t, pos, Keyword::Or) {
        match spec_parse_guarded_leaf_from(t, pos + 1, combinator_column(Keyword::Or)) {
            Err(e) => Err(e),
            Ok((c, p)) => Ok((WhereV::Column(c), p)),
        }
    } else if 0 <= pos < t.len() && (t[pos] matches Token::Ident(_)) {
        match spec_parse_guarded_leaf(t, pos) {
            Err(e) => Err(e),
            Ok((c, p)) => Ok((WhereV::Column(c), p)),
        }
    } else {
        Err(spec_unexpected(t, pos, Expected::ConditionStart))
    }
}

/// A group: combinator, colon, braced list of guarded children.
pub open spec fn spec_parse_group(t: Seq<Token>, pos: int) -> Result<(BoolWhereV, int), ParseError>
    decreases t.len() - pos, 0int,
{
    match spec_parse_bool_op(t, pos) {
        Err(e) => Err(e),
        Ok((op, p1)) => if peek_punct(t, p1, Punct::Colon) {
            if peek_punct(t, p1 + 1, Punct::LBrace) {
                match spec_conds_rest(t, p1 + 2, Seq::empty()) {
                    Err(e) => Err(e),
                    Ok((conditions, p2)) => Ok((BoolWhereV { op, conditions }, p2)),
                }
            } else {
                Err(spec_unexpected(t, p1 + 1, Expected::Punct(Punct::LBrace)))
            }
        } else {
            Err(spec_unexpected(t, p1, Expected::Punct(Punct::Colon)))
        },
    }
}

/// One group child: a node with its optional `if` guard.
pub open spec fn spec_parse_conditional(t: Seq<Token>, pos: int) -> Result<
    (ConditionalV<WhereV>, int),
    ParseError,
>
    decreases t.len() - pos, 2int,
{
    match spec_parse_where(t, pos) {
        Err(e) => Err(e),
        Ok((value, p)) => if peek_kw(t, p, Keyword::If) {
            match spec_parse_expr(t, p + 1) {
                Err(e) => Err(e),
                Ok((g, p2)) => Ok((ConditionalV { value, condition: Some(g) }, p2)),
            }
        } else {
            Ok((ConditionalV { value, condition: None }, p))
        },
    }
}

/// The children of a group.
pub open spec fn spec_conds_rest(
    t: Seq<Token>,
    pos: int,
    acc: Seq<ConditionalV<WhereV>>,
) -> Result<(Seq<ConditionalV<WhereV>>, int), ParseError>
    decreases t.len() - pos, 3int,
{
    if !(0 <= pos < t.len()) {
        Err(spec_unexpected(t, pos, Expected::ConditionStart))
    } else if peek_punct(t, pos, Punct::RBrace) {
        Ok((acc, pos + 1))
    } else {
        match spec_parse_conditional(t, pos) {
            Err(e) => Err(e),
            Ok((c, p)) => if peek_punct(t, p, Punct::Comma) {
                spec_conds_rest(t, step_pos(p, pos, t.len() as int), acc.push(c))
            } else if peek_punct(t, p, Punct::RBrace) {
                Ok((acc.push(c), p + 1))
            } else {
                Err(spec_unexpected(t, p, Expected::ListSep))
            },
        }
    }
}

// ---------------------------------------------------------------------------
// Clauses and statements.
// ---------------------------------------------------------------------------

/// An optional `WHERE` clause.
pub open spec fn spec_parse_where_clause(t: Seq<Token>, pos: int) -> Result<
    (Option<WhereV>, int),
    ParseError,
> {
    if peek_kw(t, pos, Keyword::Where) {
        match spec_parse_where(t, pos + 1) {
            Err(e) => Err(e),
            Ok((w, p)) => Ok((Some(w), p)),
        }
    } else {
        Ok((None, pos))
    }
}

/// An optional `RETURNING` clause; absence yields the empty list.
pub open spec fn spec_parse_returning(t: Seq<Token>, pos: int) -> Result<
    (Seq<Column>, int),
    ParseError,
> {
    if peek_kw(t, pos, Keyword::Returning) {
        spec_parse_column_list(t, pos + 1)
    } else {
        Ok((Seq::empty(), pos))
    }
}

/// An optional trailing statement terminator; never an error.
pub open spec fn spec_parse_semicolon(t: Seq<Token>, pos: int) -> int {
    if peek_punct(t, pos, Punct::Semicolon) {
        pos + 1
    } else {
        pos
    }
}

/// An optional join list, detected by an opening brace after the table.
pub open spec fn spec_parse_joins_opt(t: Seq<Token>, pos: int) -> Result<
    (Seq<JoinV>, int),
    ParseError,
> {
    if peek_punct(t, pos, Punct::LBrace) {
        spec_joins_rest(t, pos + 1, Seq::empty())
    } else {
        Ok((Seq::empty(), pos))
    }
}

/// An optional `GROUP BY` clause, detected by two-token lookahead.
pub open spec fn spec_parse_group_by_opt(t: Seq<Token>, pos: int) -> Result<
    (Seq<String>, int),
    ParseError,
> {
    if peek_kw(t, pos, Keyword::Group) && peek_kw(t, pos + 1, Keyword::By) {
        if peek_punct(t, pos + 2, Punct::LBrace) {
            spec_idents_rest(t, pos + 3, Seq::empty())
        } else {
            Err(spec_unexpected(t, pos + 2, Expected::Punct(Punct::LBrace)))
        }
    } else {
        Ok((Seq::empty(), pos))
    }
}

/// An optional `ORDER BY` clause, detected by two-token lookahead.
pub open spec fn spec_parse_order_by_opt(t: Seq<Token>, pos: int) -> Result<
    (Seq<(String, Ordering)>, int),
    ParseError,
> {
    if peek_kw(t, pos, Keyword::Order) && peek_kw(t, pos + 1, Keyword::By) {
        if peek_punct(t, pos + 2, Punct::LBrace) {
            spec_orders_rest(t, pos + 3, Seq::empty())
        } else {
            Err(spec_unexpected(t, pos + 2, Expected::Punct(Punct::LBrace)))
        }
    } else {
        Ok((Seq::empty(), pos))
    }
}

/// An optional `LIMIT` clause.
pub open spec fn spec_parse_limit_opt(t: Seq<Token>, pos: int) -> Result<
    (Option<u128>, int),
    ParseError,
> {
    if peek_kw(t, pos, Keyword::Limit) {
        match spec_parse_int(t, pos + 1) {
            Err(e) => Err(e),
            Ok((n, p)) => Ok((Some(n), p)),
        }
    } else {
        Ok((None, pos))
    }
}

/// An optional `OFFSET` clause.
pub open spec fn spec_parse_offset_opt(t: Seq<Token>, pos: int) -> Result<
    (Option<u128>, int),
    ParseError,
> {
    if peek_kw(t, pos, Keyword::Offset) {
        match spec_parse_int(t, pos + 1) {
            Err(e) => Err(e),
            Ok((n, p)) => Ok((Some(n), p)),
        }
    } else {
        Ok((None, pos))
    }
}

/// An optional `FOR` lock clause.
pub open spec fn spec_parse_lock_opt(t: Seq<Token>, pos: int) -> Result<
    (Option<ForLock>, int),
    ParseError,
> {
    if peek_kw(t, pos, Keyword::For) {
        match spec_parse_for_lock(t, pos + 1) {
            Err(e) => Err(e),
            Ok((l, p)) => Ok((Some(l), p)),
        }
    } else {
        Ok((None, pos))
    }
}

/// A select statement, after its leading keyword.
pub open spec fn spec_parse_select(t: Seq<Token>, pos: int) -> Result<(QueryV, int), ParseError> {
    match spec_parse_column_list(t, pos) {
        Err(e) => Err(e),
        Ok((columns, p1)) => if peek_kw(t, p1, Keyword::From) {
            match spec_parse_ident(t, p1 + 1) {
                Err(e) => Err(e),
                Ok((table, p2)) => match spec_parse_joins_opt(t, p2) {
                    Err(e) => Err(e),
                    Ok((joins, p3)) => match spec_parse_where_clause(t, p3) {
                        Err(e) => Err(e),
                        Ok((where_clause, p4)) => match spec_parse_group_by_opt(t, p4) {
                            Err(e) => Err(e),
                            Ok((group_by, p5)) => match spec_parse_order_by_opt(t, p5) {
                                Err(e) => Err(e),
                                Ok((order_by, p6)) => match spec_parse_limit_opt(t, p6) {
                                    Err(e) => Err(e),
                                    Ok((limit, p7)) => match spec_parse_offset_opt(t, p7) {
                                        Err(e) => Err(e),
                                        Ok((offset, p8)) => match spec_parse_lock_opt(t, p8) {
                                            Err(e) => Err(e),
                                            Ok((lock, p9)) => Ok(
                                                (
                                                    QueryV::Select {
                                                        columns,
                                                        table,
                                                        where_clause,
                                                        group_by,
                                                        order_by,
                                                        limit,
                                                        offset,
                                                        joins,
                                                        lock,
                                                    },
                                                    spec_parse_semicolon(t, p9),
                                                ),
                                            ),
                                        },
                                    },
                                },
                            },
                        },
                    },
                },
            }
        } else {
            Err(spec_unexpected(t, p1, Expected::Keyword(Keyword::From)))
        },
    }
}

/// An insert statement, after its leading keyword: assignments first, then
/// `INTO` and the table, then an optional returning list.
pub open spec fn spec_parse_insert(t: Seq<Token>, pos: int) -> Result<(QueryV, int), ParseError> {
    if peek_punct(t, pos, Punct::LBrace) {
        match spec_assigns_rest(t, pos + 1, Seq::empty()) {
            Err(e) => Err(e),
            Ok((columns, p1)) => if peek_kw(t, p1, Keyword::Into) {
                match spec_parse_ident(t, p1 + 1) {
                    Err(e) => Err(e),
                    Ok((table, p2)) => match spec_parse_returning(t, p2) {
                        Err(e) => Err(e),
                        Ok((returning, p3)) => Ok(
                            (
                                QueryV::Insert { columns, table, returning },
                                spec_parse_semicolon(t, p3),
                            ),
                        ),
                    },
                }
            } else {
                Err(spec_unexpected(t, p1, Expected::Keyword(Keyword::Into)))
            },
        }
    } else {
        Err(spec_unexpected(t, pos, Expected::Punct(Punct::LBrace)))
    }
}

/// An update statement, after its leading keyword.
pub open spec fn spec_parse_update(t: Seq<Token>, pos: int) -> Result<(QueryV, int), ParseError> {
    match spec_parse_ident(t, pos) {
        Err(e) => Err(e),
        Ok((table, p1)) => if peek_kw(t, p1, Keyword::SetKw) {
            if peek_punct(t, p1 + 1, Punct::LBrace) {
                match spec_assigns_rest(t, p1 + 2, Seq::empty()) {
                    Err(e) => Err(e),
                    Ok((columns, p2)) => match spec_parse_where_clause(t, p2) {
                        Err(e) => Err(e),
                        Ok((where_clause, p3)) => match spec_parse_returning(t, p3) {
                            Err(e) => Err(e),
                            Ok((returning, p4)) => Ok(
                                (
                                    QueryV::Update { columns, table, where_clause, returning },
                                    spec_parse_semicolon(t, p4),
                                ),
                            ),
                        },
                    },
                }
            } else {
                Err(spec_unexpected(t, p1 + 1, Expected::Punct(Punct::LBrace)))
            }
        } else {
            Err(spec_unexpected(t, p1, Expected::Keyword(Keyword::SetKw)))
        },
    }
}

/// A delete statement, after its leading keyword.
pub open spec fn spec_parse_delete(t: Seq<Token>, pos: int) -> Result<(QueryV, int), ParseError> {
    if peek_kw(t, pos, Keyword::From) {
        match spec_parse_ident(t, pos + 1) {
            Err(e) => Err(e),
            Ok((table, p1)) => match spec_parse_where_clause(t, p1) {
                Err(e) => Err(e),
                Ok((where_clause, p2)) => match spec_parse_returning(t, p2) {
                    Err(e) => Err(e),
                    Ok((returning, p3)) => Ok(
                        (
                            QueryV::Delete { table, where_clause, returning },
                            spec_parse_semicolon(t, p3),
                        ),
                    ),
                },
            },
        }
    } else {
        Err(spec_unexpected(t, pos, Expected::Keyword(Keyword::From)))
    }
}

/// The statement dispatcher: the leading keyword selects the statement
/// parser; anything else is an unexpected token naming the four statement
/// keywords.
pub open spec fn spec_parse_query(t: Seq<Token>, pos: int) -> Result<(QueryV, int), ParseError> {
    if peek_kw(t, pos, Keyword::Select) {
        spec_parse_select(t, pos + 1)
    } else if peek_kw(t, pos, Keyword::Insert) {
        spec_parse_insert(t, pos + 1)
    } else if peek_kw(t, pos, Keyword::Update) {
        spec_parse_update(t, pos + 1)
    } else if peek_kw(t, pos, Keyword::Delete) {
        spec_parse_delete(t, pos + 1)
    } else {
        Err(spec_unexpected(t, pos, Expected::Statement))
    }
}

/// A whole input: one statement, which must consume every token.
pub open spec fn spec_parse_statement(t: Seq<Token>) -> Result<QueryV, ParseError> {
    match spec_parse_query(t, 0) {
        Err(e) => Err(e),
        Ok((q, p)) => if p == t.len() {
            Ok(q)
        } else {
            Err(spec_unexpected(t, p, Expected::EndOfInput))
        },
    }
}

} // verus!
