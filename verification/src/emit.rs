use vstd::prelude::*;

use crate::ast::{
    BoolOp, BoolWhere, Column, ColumnConditionV, ConditionalV, ForLock, Join, JoinType, JoinV, Ordering, QueryV, Where, WhereOp,
    WhereV,
};
use crate::token::{Keyword, Punct, Token};

verus! {

// ---------------------------------------------------------------------------
// The canonical token form of a statement: what re-serializing an abstract
// syntax tree produces. Optional clauses that are absent or empty emit
// nothing; lists carry no trailing comma; no terminator is emitted.
// ---------------------------------------------------------------------------

pub open spec fn tokens_of_where_op(op: WhereOp) -> Seq<Token> {
    match op {
        WhereOp::Eq => seq![Token::Punct(Punct::EqEq)],
        WhereOp::Ne => seq![Token::Punct(Punct::Ne)],
        WhereOp::Gt => seq![Token::Punct(Punct::Gt)],
        WhereOp::Ge => seq![Token::Punct(Punct::Ge)],
        WhereOp::Lt => seq![Token::Punct(Punct::Lt)],
        WhereOp::Le => seq![Token::Punct(Punct::Le)],
        WhereOp::Like => seq![Token::Kw(Keyword::Like)],
        WhereOp::NotLike => seq![Token::Kw(Keyword::Not), Token::Kw(Keyword::Like)],
        WhereOp::In => seq![Token::Kw(Keyword::In)],
        WhereOp::NotIn => seq![Token::Kw(Keyword::Not), Token::Kw(Keyword::In)],
    }
}

pub open spec fn tokens_of_ordering(o: Ordering) -> Seq<Token> {
    match o {
        Ordering::Asc => seq![Token::Kw(Keyword::Asc)],
        Ordering::Desc => seq![Token::Kw(Keyword::Desc)],
    }
}

pub open spec fn tokens_of_join_type(j: JoinType) -> Seq<Token> {
    match j {
        JoinType::Inner => seq![Token::Kw(Keyword::Inner)],
        JoinType::Left => seq![Token::Kw(Keyword::Left)],
        JoinType::Right => seq![Token::Kw(Keyword::Right)],
        JoinType::Full => seq![Token::Kw(Keyword::Full)],
    }
}

pub open spec fn tokens_of_lock(l: ForLock) -> Seq<Token> {
    match l {
        ForLock::Update => seq![Token::Kw(Keyword::Update)],
        ForLock::Share => seq![Token::Kw(Keyword::Share)],
    }
}

pub open spec fn tokens_of_bool_op(op: BoolOp) -> Seq<Token> {
    match op {
        BoolOp::And => seq![Token::Kw(Keyword::And)],
        BoolOp::Or => seq![Token::Kw(Keyword::Or)],
    }
}

pub open spec fn tokens_of_column(c: Column) -> Seq<Token> {
    match c {
        Column::All => seq![Token::Punct(Punct::Star)],
        Column::Named(name, alias) => match alias {
            Some(a) => seq![
                Token::Ident(name),
                Token::Kw(Keyword::As),
                Token::Ident(a),
            ],
            None => seq![Token::Ident(name)],
        },
    }
}

/// The entries of a column list after its opening brace, closing brace
/// included.
pub open spec fn columns_body(cs: Seq<Column>) -> Seq<Token>
    decreases cs.len(),
{
    if cs.len() == 0 {
        seq![Token::Punct(Punct::RBrace)]
    } else {
        tokens_of_column(cs[0]) + (if cs.len() == 1 {
            seq![Token::Punct(Punct::RBrace)]
        } else {
            seq![Token::Punct(Punct::Comma)] + columns_body(cs.drop_first())
        })
    }
}

/// The entries of a group-by list after its opening brace.
pub open spec fn idents_body(cs: Seq<String>) -> Seq<Token>
    decreases cs.len(),
{
    if cs.len() == 0 {
        seq![Token::Punct(Punct::RBrace)]
    } else {
        seq![Token::Ident(cs[0])] + (if cs.len() == 1 {
            seq![Token::Punct(Punct::RBrace)]
        } else {
            seq![Token::Punct(Punct::Comma)] + idents_body(cs.drop_first())
        })
    }
}

/// The entries of an order-by list after its opening brace.
pub open spec fn orders_body(cs: Seq<(String, Ordering)>) -> Seq<Token>
    decreases cs.len(),
{
    if cs.len() == 0 {
        seq![Token::Punct(Punct::RBrace)]
    } else {
        (seq![Token::Ident(cs[0].0)] + tokens_of_ordering(cs[0].1)) + (if cs.len() == 1 {
            seq![Token::Punct(Punct::RBrace)]
        } else {
            seq![Token::Punct(Punct::Comma)] + orders_body(cs.drop_first())
        })
    }
}

/// The entries of an assignment list after its opening brace.
pub open spec fn assigns_body(cs: Seq<(String, Seq<Token>)>) -> Seq<Token>
    decreases cs.len(),
{
    if cs.len() == 0 {
        seq![Token::Punct(Punct::RBrace)]
    } else {
        (seq![Token::Ident(cs[0].0), Token::Punct(Punct::Assign)] + cs[0].1) + (if cs.len()
            == 1 {
            seq![Token::Punct(Punct::RBrace)]
        } else {
            seq![Token::Punct(Punct::Comma)] + assigns_body(cs.drop_first())
        })
    }
}

pub open spec fn tokens_of_join(j: JoinV) -> Seq<Token> {
    tokens_of_join_type(j.join_type) + (if j.outer {
        seq![Token::Kw(Keyword::Outer)]
    } else {
        Seq::empty()
    }) + seq![Token::Kw(Keyword::Join), Token::Ident(j.table), Token::Kw(Keyword::On)] + j.on
}

/// The entries of a join list after its opening brace.
pub open spec fn joins_body(cs: Seq<JoinV>) -> Seq<Token>
    decreases cs.len(),
{
    if cs.len() == 0 {
        seq![Token::Punct(Punct::RBrace)]
    } else {
        tokens_of_join(cs[0]) + (if cs.len() == 1 {
            seq![Token::Punct(Punct::RBrace)]
        } else {
            seq![Token::Punct(Punct::Comma)] + joins_body(cs.drop_first())
        })
    }
}

/// An optional guard: `if` and the guard expression.
pub open spec fn guard_tokens(o: Option<Seq<Token>>) -> Seq<Token> {
    match o {
        Some(g) => seq![Token::Kw(Keyword::If)] + g,
        None => Seq::empty(),
    }
}

pub open spec fn tokens_of_cc(cc: ColumnConditionV) -> Seq<Token> {
    seq![Token::Ident(cc.column)] + tokens_of_where_op(cc.op) + cc.value
}

pub open spec fn tokens_of_where(w: WhereV) -> Seq<Token>
    decreases w, 0int,
{
    match w {
        WhereV::Column(c) => tokens_of_cc(c.value) + guard_tokens(c.condition),
        WhereV::BoolWhere(b) => tokens_of_bool_op(b.op) + seq![
            Token::Punct(Punct::Colon),
            Token::Punct(Punct::LBrace),
        ] + conds_body(b.conditions),
    }
}

pub open spec fn tokens_of_cond(c: ConditionalV<WhereV>) -> Seq<Token>
    decreases c, 0int,
{
    tokens_of_where(c.value) + guard_tokens(c.condition)
}

/// The children of a condition group after its opening brace.
pub open spec fn conds_body(cs: Seq<ConditionalV<WhereV>>) -> Seq<Token>
    decreases cs, cs.len(),
{
    if cs.len() == 0 {
        seq![Token::Punct(Punct::RBrace)]
    } else {
        tokens_of_cond(cs[0]) + (if cs.len() == 1 {
            seq![Token::Punct(Punct::RBrace)]
        } else {
            seq![Token::Punct(Punct::Comma)] + conds_body(cs.drop_first())
        })
    }
}

/// An optional `WHERE` clause.
pub open spec fn where_part(o: Option<WhereV>) -> Seq<Token> {
    match o {
        Some(w) => seq![Token::Kw(Keyword::Where)] + tokens_of_where(w),
        None => Seq::empty(),
    }
}

/// An optional `RETURNING` clause; an empty list emits nothing.
pub open spec fn returning_part(cs: Seq<Column>) -> Seq<Token> {
    if cs.len() == 0 {
        Seq::empty()
    } else {
        seq![Token::Kw(Keyword::Returning), Token::Punct(Punct::LBrace)] + columns_body(cs)
    }
}

/// The canonical token form of one statement.
pub open spec fn tokens_of_query(q: QueryV) -> Seq<Token> {
    match q {
        QueryV::Select {
            columns,
            table,
            where_clause,
            group_by,
            order_by,
            limit,
            offset,
            joins,
            lock,
        } => seq![Token::Kw(Keyword::Select), Token::Punct(Punct::LBrace)] + columns_body(columns)
            + seq![Token::Kw(Keyword::From), Token::Ident(table)] + (if joins.len() == 0 {
            Seq::empty()
        } else {
            seq![Token::Punct(Punct::LBrace)] + joins_body(joins)
        }) + where_part(where_clause) + (if group_by.len() == 0 {
            Seq::empty()
        } else {
            seq![
                Token::Kw(Keyword::Group),
                Token::Kw(Keyword::By),
                Token::Punct(Punct::LBrace),
            ] + idents_body(group_by)
        }) + (if order_by.len() == 0 {
            Seq::empty()
        } else {
            seq![
                Token::Kw(Keyword::Order),
                Token::Kw(Keyword::By),
                Token::Punct(Punct::LBrace),
            ] + orders_body(order_by)
        }) + (match limit {
            Some(n) => seq![Token::Kw(Keyword::Limit), Token::IntLit(n)],
            None => Seq::empty(),
        }) + (match offset {
            Some(n) => seq![Token::Kw(Keyword::Offset), Token::IntLit(n)],
            None => Seq::empty(),
        }) + (match lock {
            Some(l) => seq![Token::Kw(Keyword::For)] + tokens_of_lock(l),
            None => Seq::empty(),
        }),
        QueryV::Insert { columns, table, returning } => seq![
            Token::Kw(Keyword::Insert),
            Token::Punct(Punct::LBrace),
        ] + assigns_body(columns) + seq![Token::Kw(Keyword::Into), Token::Ident(table)]
            + returning_part(returning),
        QueryV::Update { columns, table, where_clause, returning } => seq![
            Token::Kw(Keyword::Update),
            Token::Ident(table),
            Token::Kw(Keyword::SetKw),
            Token::Punct(Punct::LBrace),
        ] + assigns_body(columns) + where_part(where_clause) + returning_part(returning),
        QueryV::Delete { table, where_clause, returning } => seq![
            Token::Kw(Keyword::Delete),
            Token::Kw(Keyword::From),
            Token::Ident(table),
        ] + where_part(where_clause) + returning_part(returning),
    }
}

} // verus!
