use vstd::prelude::*;

use crate::ast::{
    assigns_view, cc_view, cond_where_view, conds_view, joins_view, opt_expr_view,
    opt_where_view, BoolOp, BoolWhere, Column, ColumnCondition, Conditional, Expr,
    ForLock, Join, Ordering, Query, Where, WhereOp,
};
use crate::emit::{
    assigns_body, columns_body, conds_body, guard_tokens, idents_body, joins_body, orders_body,
    returning_part, tokens_of_cc, tokens_of_column, tokens_of_cond,
    tokens_of_join, tokens_of_lock, tokens_of_query,
    tokens_of_where, tokens_of_where_op, where_part,
};
use crate::token::{Keyword, Punct, Token};

verus! {

// ---------------------------------------------------------------------------
// Index lemmas for the recursively defined view maps.
// ---------------------------------------------------------------------------

pub proof fn lemma_joins_view_len(s: Seq<Join>)
    ensures
        joins_view(s).len() == s.len(),
    decreases s.len(),
{
    if s.len() > 0 {
        lemma_joins_view_len(s.drop_last());
    }
}

pub proof fn lemma_joins_view_index(s: Seq<Join>, i: int)
    requires
        0 <= i < s.len(),
    ensures
        joins_view(s)[i] == s[i]@,
    decreases s.len(),
{
    lemma_joins_view_len(s.drop_last());
    if i < s.len() - 1 {
        lemma_joins_view_index(s.drop_last(), i);
    }
}

pub proof fn lemma_assigns_view_len(s: Seq<(String, Expr)>)
    ensures
        assigns_view(s).len() == s.len(),
    decreases s.len(),
{
    if s.len() > 0 {
        lemma_assigns_view_len(s.drop_last());
    }
}

pub proof fn lemma_assigns_view_index(s: Seq<(String, Expr)>, i: int)
    requires
        0 <= i < s.len(),
    ensures
        assigns_view(s)[i] == (s[i].0, s[i].1@),
    decreases s.len(),
{
    lemma_assigns_view_len(s.drop_last());
    if i < s.len() - 1 {
        lemma_assigns_view_index(s.drop_last(), i);
    }
}

pub proof fn lemma_conds_view_len(s: Seq<Conditional<Where>>)
    ensures
        conds_view(s).len() == s.len(),
    decreases s.len(),
{
    if s.len() > 0 {
        lemma_conds_view_len(s.drop_last());
    }
}

pub proof fn lemma_conds_view_index(s: Seq<Conditional<Where>>, i: int)
    requires
        0 <= i < s.len(),
    ensures
        conds_view(s)[i] == cond_where_view(s[i]),
    decreases s.len(),
{
    lemma_conds_view_len(s.drop_last());
    if i < s.len() - 1 {
        lemma_conds_view_index(s.drop_last(), i);
    }
}

// ---------------------------------------------------------------------------
// Small emit helpers.
// ---------------------------------------------------------------------------

/// Appends a copy of every token of `ts`.
fn append_tokens(v: &mut Vec<Token>, ts: &Vec<Token>)
    ensures
        final(v)@ == old(v)@ + ts@,
{
    let mut i: usize = 0;
    proof {
        assert(v@ =~= v@ + ts@.subrange(0, 0));
    }
    while i < ts.len()
        invariant
            i <= ts@.len(),
            v@ == old(v)@ + ts@.subrange(0, i as int),
        decreases ts@.len() - i,
    {
        v.push(ts[i].dup());
        proof {
            assert(ts@.subrange(0, (i + 1) as int) =~= ts@.subrange(0, i as int).push(
                ts@[i as int],
            ));
            assert(v@ =~= old(v)@ + ts@.subrange(0, (i + 1) as int));
        }
        i = i + 1;
    }
    proof {
        assert(ts@.subrange(0, ts@.len() as int) =~= ts@);
    }
}

fn emit_where_op(v: &mut Vec<Token>, op: WhereOp)
    ensures
        final(v)@ == old(v)@ + tokens_of_where_op(op),
{
    match op {
        WhereOp::Eq => v.push(Token::Punct(Punct::EqEq)),
        WhereOp::Ne => v.push(Token::Punct(Punct::Ne)),
        WhereOp::Gt => v.push(Token::Punct(Punct::Gt)),
        WhereOp::Ge => v.push(Token::Punct(Punct::Ge)),
        WhereOp::Lt => v.push(Token::Punct(Punct::Lt)),
        WhereOp::Le => v.push(Token::Punct(Punct::Le)),
        WhereOp::Like => v.push(Token::Kw(Keyword::Like)),
        WhereOp::NotLike => {
            v.push(Token::Kw(Keyword::Not));
            v.push(Token::Kw(Keyword::Like));
        },
        WhereOp::In => v.push(Token::Kw(Keyword::In)),
        WhereOp::NotIn => {
            v.push(Token::Kw(Keyword::Not));
            v.push(Token::Kw(Keyword::In));
        },
    }
    proof {
        assert(v@ =~= old(v)@ + tokens_of_where_op(op));
    }
}

fn emit_column(v: &mut Vec<Token>, c: &Column)
    ensures
        final(v)@ == old(v)@ + tokens_of_column(*c),
{
    match c {
        Column::All => v.push(Token::Punct(Punct::Star)),
        Column::Named(name, alias) => {
            v.push(Token::Ident(name.clone()));
            match alias {
                Some(a) => {
                    v.push(Token::Kw(Keyword::As));
                    v.push(Token::Ident(a.clone()));
                },
                None => {},
            }
        },
    }
    proof {
        assert(v@ =~= old(v)@ + tokens_of_column(*c));
    }
}

// ---------------------------------------------------------------------------
// List emitters: each walks the entries from index `i` and closes the brace.
// ---------------------------------------------------------------------------

fn emit_columns_from(v: &mut Vec<Token>, cs: &Vec<Column>, i: usize)
    requires
        i <= cs@.len(),
    ensures
        final(v)@ == old(v)@ + columns_body(cs@.skip(i as int)),
    decreases cs@.len() - i,
{
    if i == cs.len() {
        v.push(Token::Punct(Punct::RBrace));
        proof {
            assert(v@ =~= old(v)@ + columns_body(cs@.skip(i as int)));
        }
    } else {
        emit_column(v, &cs[i]);
        if i + 1 == cs.len() {
            v.push(Token::Punct(Punct::RBrace));
        } else {
            v.push(Token::Punct(Punct::Comma));
            emit_columns_from(v, cs, i + 1);
        }
        proof {
            assert(cs@.skip(i as int).drop_first() =~= cs@.skip(i as int + 1));
            assert(v@ =~= old(v)@ + columns_body(cs@.skip(i as int)));
        }
    }
}

fn emit_idents_from(v: &mut Vec<Token>, cs: &Vec<String>, i: usize)
    requires
        i <= cs@.len(),
    ensures
        final(v)@ == old(v)@ + idents_body(cs@.skip(i as int)),
    decreases cs@.len() - i,
{
    if i == cs.len() {
        v.push(Token::Punct(Punct::RBrace));
        proof {
            assert(v@ =~= old(v)@ + idents_body(cs@.skip(i as int)));
        }
    } else {
        v.push(Token::Ident(cs[i].clone()));
        if i + 1 == cs.len() {
            v.push(Token::Punct(Punct::RBrace));
        } else {
            v.push(Token::Punct(Punct::Comma));
            emit_idents_from(v, cs, i + 1);
        }
        proof {
            assert(cs@.skip(i as int).drop_first() =~= cs@.skip(i as int + 1));
            assert(v@ =~= old(v)@ + idents_body(cs@.skip(i as int)));
        }
    }
}

fn emit_orders_from(v: &mut Vec<Token>, cs: &Vec<(String, Ordering)>, i: usize)
    requires
        i <= cs@.len(),
    ensures
        final(v)@ == old(v)@ + orders_body(cs@.skip(i as int)),
    decreases cs@.len() - i,
{
    if i == cs.len() {
        v.push(Token::Punct(Punct::RBrace));
        proof {
            assert(v@ =~= old(v)@ + orders_body(cs@.skip(i as int)));
        }
    } else {
        v.push(Token::Ident(cs[i].0.clone()));
        match cs[i].1 {
            Ordering::Asc => v.push(Token::Kw(Keyword::Asc)),
            Ordering::Desc => v.push(Token::Kw(Keyword::Desc)),
        }
        if i + 1 == cs.len() {
            v.push(Token::Punct(Punct::RBrace));
        } else {
            v.push(Token::Punct(Punct::Comma));
            emit_orders_from(v, cs, i + 1);
        }
        proof {
            assert(cs@.skip(i as int).drop_first() =~= cs@.skip(i as int + 1));
            assert(v@ =~= old(v)@ + orders_body(cs@.skip(i as int)));
        }
    }
}

fn emit_assigns_from(v: &mut Vec<Token>, cs: &Vec<(String, Expr)>, i: usize)
    requires
        i <= cs@.len(),
    ensures
        final(v)@ == old(v)@ + assigns_body(assigns_view(cs@).skip(i as int)),
    decreases cs@.len() - i,
{
    proof {
        lemma_assigns_view_len(cs@);
    }
    if i == cs.len() {
        v.push(Token::Punct(Punct::RBrace));
        proof {
            assert(v@ =~= old(v)@ + assigns_body(assigns_view(cs@).skip(i as int)));
        }
    } else {
        v.push(Token::Ident(cs[i].0.clone()));
        v.push(Token::Punct(Punct::Assign));
        append_tokens(v, &cs[i].1.tokens);
        if i + 1 == cs.len() {
            v.push(Token::Punct(Punct::RBrace));
        } else {
            v.push(Token::Punct(Punct::Comma));
            emit_assigns_from(v, cs, i + 1);
        }
        proof {
            lemma_assigns_view_index(cs@, i as int);
            assert(assigns_view(cs@).skip(i as int).drop_first() =~= assigns_view(cs@).skip(
                i as int + 1,
            ));
            assert(v@ =~= old(v)@ + assigns_body(assigns_view(cs@).skip(i as int)));
        }
    }
}

fn emit_join(v: &mut Vec<Token>, j: &Join)
    ensures
        final(v)@ == old(v)@ + tokens_of_join(j@),
{
    match j.join_type {
        crate::ast::JoinType::Inner => v.push(Token::Kw(Keyword::Inner)),
        crate::ast::JoinType::Left => v.push(Token::Kw(Keyword::Left)),
        crate::ast::JoinType::Right => v.push(Token::Kw(Keyword::Right)),
        crate::ast::JoinType::Full => v.push(Token::Kw(Keyword::Full)),
    }
    if j.outer {
        v.push(Token::Kw(Keyword::Outer));
    }
    v.push(Token::Kw(Keyword::Join));
    v.push(Token::Ident(j.table.clone()));
    v.push(Token::Kw(Keyword::On));
    append_tokens(v, &j.on.tokens);
    proof {
        assert(v@ =~= old(v)@ + tokens_of_join(j@));
    }
}

fn emit_joins_from(v: &mut Vec<Token>, cs: &Vec<Join>, i: usize)
    requires
        i <= cs@.len(),
    ensures
        final(v)@ == old(v)@ + joins_body(joins_view(cs@).skip(i as int)),
    decreases cs@.len() - i,
{
    proof {
        lemma_joins_view_len(cs@);
    }
    if i == cs.len() {
        v.push(Token::Punct(Punct::RBrace));
        proof {
            assert(v@ =~= old(v)@ + joins_body(joins_view(cs@).skip(i as int)));
        }
    } else {
        emit_join(v, &cs[i]);
        if i + 1 == cs.len() {
            v.push(Token::Punct(Punct::RBrace));
        } else {
            v.push(Token::Punct(Punct::Comma));
            emit_joins_from(v, cs, i + 1);
        }
        proof {
            lemma_joins_view_index(cs@, i as int);
            assert(joins_view(cs@).skip(i as int).drop_first() =~= joins_view(cs@).skip(
                i as int + 1,
            ));
            assert(v@ =~= old(v)@ + joins_body(joins_view(cs@).skip(i as int)));
        }
    }
}

// ---------------------------------------------------------------------------
// The condition tree.
// ---------------------------------------------------------------------------

fn emit_guard(v: &mut Vec<Token>, g: &Option<Expr>)
    ensures
        final(v)@ == old(v)@ + guard_tokens(opt_expr_view(*g)),
{
    match g {
        Some(e) => {
            v.push(Token::Kw(Keyword::If));
            append_tokens(v, &e.tokens);
        },
        None => {},
    }
    proof {
        assert(v@ =~= old(v)@ + guard_tokens(opt_expr_view(*g)));
    }
}

fn emit_cc(v: &mut Vec<Token>, cc: &ColumnCondition)
    ensures
        final(v)@ == old(v)@ + tokens_of_cc(cc_view(*cc)),
{
    v.push(Token::Ident(cc.column.clone()));
    emit_where_op(v, cc.op);
    append_tokens(v, &cc.value.tokens);
    proof {
        assert(v@ =~= old(v)@ + tokens_of_cc(cc_view(*cc)));
    }
}

fn emit_where(v: &mut Vec<Token>, w: &Where)
    ensures
        final(v)@ == old(v)@ + tokens_of_where(w@),
    decreases w, 0int,
{
    match w {
        Where::Column(c) => {
            emit_cc(v, &c.value);
            emit_guard(v, &c.condition);
            proof {
                assert(v@ =~= old(v)@ + tokens_of_where(w@));
            }
        },
        Where::BoolWhere(b) => {
            match b.op {
                BoolOp::And => v.push(Token::Kw(Keyword::And)),
                BoolOp::Or => v.push(Token::Kw(Keyword::Or)),
            }
            v.push(Token::Punct(Punct::Colon));
            v.push(Token::Punct(Punct::LBrace));
            emit_conds_from(v, &b.conditions, 0);
            proof {
                assert(conds_view(b.conditions@).skip(0) =~= conds_view(b.conditions@));
                assert(v@ =~= old(v)@ + tokens_of_where(w@));
            }
        },
    }
}

fn emit_cond(v: &mut Vec<Token>, c: &Conditional<Where>)
    ensures
        final(v)@ == old(v)@ + tokens_of_cond(cond_where_view(*c)),
    decreases c, 0int,
{
    emit_where(v, &c.value);
    emit_guard(v, &c.condition);
    proof {
        assert(v@ =~= old(v)@ + tokens_of_cond(cond_where_view(*c)));
    }
}

fn emit_conds_from(v: &mut Vec<Token>, cs: &Vec<Conditional<Where>>, i: usize)
    requires
        i <= cs@.len(),
    ensures
        final(v)@ == old(v)@ + conds_body(conds_view(cs@).skip(i as int)),
    decreases cs@, cs@.len() - i,
{
    proof {
        lemma_conds_view_len(cs@);
    }
    if i == cs.len() {
        v.push(Token::Punct(Punct::RBrace));
        proof {
            assert(v@ =~= old(v)@ + conds_body(conds_view(cs@).skip(i as int)));
        }
    } else {
        emit_cond(v, &cs[i]);
        if i + 1 == cs.len() {
            v.push(Token::Punct(Punct::RBrace));
        } else {
            v.push(Token::Punct(Punct::Comma));
            emit_conds_from(v, cs, i + 1);
        }
        proof {
            lemma_conds_view_index(cs@, i as int);
            assert(conds_view(cs@).skip(i as int).drop_first() =~= conds_view(cs@).skip(
                i as int + 1,
            ));
            assert(v@ =~= old(v)@ + conds_body(conds_view(cs@).skip(i as int)));
        }
    }
}

// ---------------------------------------------------------------------------
// Clause parts and the statement.
// ---------------------------------------------------------------------------

fn emit_where_part(v: &mut Vec<Token>, o: &Option<Where>)
    ensures
        final(v)@ == old(v)@ + where_part(opt_where_view(*o)),
{
    match o {
        Some(w) => {
            v.push(Token::Kw(Keyword::Where));
            emit_where(v, w);
        },
        None => {},
    }
    proof {
        assert(v@ =~= old(v)@ + where_part(opt_where_view(*o)));
    }
}

fn emit_returning_part(v: &mut Vec<Token>, cs: &Vec<Column>)
    ensures
        final(v)@ == old(v)@ + returning_part(cs@),
{
    if cs.len() > 0 {
        v.push(Token::Kw(Keyword::Returning));
        v.push(Token::Punct(Punct::LBrace));
        emit_columns_from(v, cs, 0);
        proof {
            assert(cs@.skip(0) =~= cs@);
        }
    }
    proof {
        assert(v@ =~= old(v)@ + returning_part(cs@));
    }
}


/// Appends two tokens.
fn append2(v: &mut Vec<Token>, a: Token, b: Token)
    ensures
        final(v)@ == old(v)@ + seq![a, b],
{
    v.push(a);
    v.push(b);
    proof {
        assert(v@ =~= old(v)@ + seq![a, b]);
    }
}

/// Appends a whole column list, braces excluded on the left.
fn emit_columns_all(v: &mut Vec<Token>, cs: &Vec<Column>)
    ensures
        final(v)@ == old(v)@ + columns_body(cs@),
{
    emit_columns_from(v, cs, 0);
    proof {
        assert(cs@.skip(0) =~= cs@);
    }
}

/// Appends the optional join-list clause.
fn emit_joins_part(v: &mut Vec<Token>, js: &Vec<Join>)
    ensures
        final(v)@ == old(v)@ + (if joins_view(js@).len() == 0 {
            Seq::<Token>::empty()
        } else {
            seq![Token::Punct(Punct::LBrace)] + joins_body(joins_view(js@))
        }),
{
    proof {
        lemma_joins_view_len(js@);
    }
    if js.len() > 0 {
        v.push(Token::Punct(Punct::LBrace));
        emit_joins_from(v, js, 0);
        proof {
            assert(joins_view(js@).skip(0) =~= joins_view(js@));
            assert(v@ =~= old(v)@ + (seq![Token::Punct(Punct::LBrace)] + joins_body(
                joins_view(js@),
            )));
        }
    } else {
        proof {
            assert(v@ =~= old(v)@ + Seq::<Token>::empty());
        }
    }
}

/// Appends the optional `GROUP BY` clause.
fn emit_group_by_part(v: &mut Vec<Token>, cs: &Vec<String>)
    ensures
        final(v)@ == old(v)@ + (if cs@.len() == 0 {
            Seq::<Token>::empty()
        } else {
            seq![
                Token::Kw(Keyword::Group),
                Token::Kw(Keyword::By),
                Token::Punct(Punct::LBrace),
            ] + idents_body(cs@)
        }),
{
    if cs.len() > 0 {
        v.push(Token::Kw(Keyword::Group));
        v.push(Token::Kw(Keyword::By));
        v.push(Token::Punct(Punct::LBrace));
        emit_idents_from(v, cs, 0);
        proof {
            assert(cs@.skip(0) =~= cs@);
            assert(v@ =~= old(v)@ + (seq![
                Token::Kw(Keyword::Group),
                Token::Kw(Keyword::By),
                Token::Punct(Punct::LBrace),
            ] + idents_body(cs@)));
        }
    } else {
        proof {
            assert(v@ =~= old(v)@ + Seq::<Token>::empty());
        }
    }
}

/// Appends the optional `ORDER BY` clause.
fn emit_order_by_part(v: &mut Vec<Token>, cs: &Vec<(String, Ordering)>)
    ensures
        final(v)@ == old(v)@ + (if cs@.len() == 0 {
            Seq::<Token>::empty()
        } else {
            seq![
                Token::Kw(Keyword::Order),
                Token::Kw(Keyword::By),
                Token::Punct(Punct::LBrace),
            ] + orders_body(cs@)
        }),
{
    if cs.len() > 0 {
        v.push(Token::Kw(Keyword::Order));
        v.push(Token::Kw(Keyword::By));
        v.push(Token::Punct(Punct::LBrace));
        emit_orders_from(v, cs, 0);
        proof {
            assert(cs@.skip(0) =~= cs@);
            assert(v@ =~= old(v)@ + (seq![
                Token::Kw(Keyword::Order),
                Token::Kw(Keyword::By),
                Token::Punct(Punct::LBrace),
            ] + orders_body(cs@)));
        }
    } else {
        proof {
            assert(v@ =~= old(v)@ + Seq::<Token>::empty());
        }
    }
}

/// Appends the optional `LIMIT` clause.
fn emit_limit_part(v: &mut Vec<Token>, n: &Option<u128>)
    ensures
        final(v)@ == old(v)@ + (match *n {
            Some(k) => seq![Token::Kw(Keyword::Limit), Token::IntLit(k)],
            None => Seq::<Token>::empty(),
        }),
{
    match n {
        Some(k) => {
            v.push(Token::Kw(Keyword::Limit));
            v.push(Token::IntLit(*k));
        },
        None => {},
    }
    proof {
        assert(v@ =~= old(v)@ + (match *n {
            Some(k) => seq![Token::Kw(Keyword::Limit), Token::IntLit(k)],
            None => Seq::<Token>::empty(),
        }));
    }
}

/// Appends the optional `OFFSET` clause.
fn emit_offset_part(v: &mut Vec<Token>, n: &Option<u128>)
    ensures
        final(v)@ == old(v)@ + (match *n {
            Some(k) => seq![Token::Kw(Keyword::Offset), Token::IntLit(k)],
            None => Seq::<Token>::empty(),
        }),
{
    match n {
        Some(k) => {
            v.push(Token::Kw(Keyword::Offset));
            v.push(Token::IntLit(*k));
        },
        None => {},
    }
    proof {
        assert(v@ =~= old(v)@ + (match *n {
            Some(k) => seq![Token::Kw(Keyword::Offset), Token::IntLit(k)],
            None => Seq::<Token>::empty(),
        }));
    }
}

/// Appends the optional `FOR` lock clause.
fn emit_lock_part(v: &mut Vec<Token>, l: &Option<ForLock>)
    ensures
        final(v)@ == old(v)@ + (match *l {
            Some(k) => seq![Token::Kw(Keyword::For)] + tokens_of_lock(k),
            None => Seq::<Token>::empty(),
        }),
{
    match l {
        Some(k) => {
            v.push(Token::Kw(Keyword::For));
            match k {
                ForLock::Update => v.push(Token::Kw(Keyword::Update)),
                ForLock::Share => v.push(Token::Kw(Keyword::Share)),
            }
        },
        None => {},
    }
    proof {
        assert(v@ =~= old(v)@ + (match *l {
            Some(k) => seq![Token::Kw(Keyword::For)] + tokens_of_lock(k),
            None => Seq::<Token>::empty(),
        }));
    }
}

/// The select statement's canonical form, assembled clause by clause.
#[verifier::rlimit(100)]
fn serial_select(
    columns: &Vec<Column>,
    table: &String,
    where_clause: &Option<Where>,
    group_by: &Vec<String>,
    order_by: &Vec<(String, Ordering)>,
    limit: &Option<u128>,
    offset: &Option<u128>,
    joins: &Vec<Join>,
    lock: &Option<ForLock>,
) -> (r: Vec<Token>)
    ensures
        r@ == tokens_of_query(
            crate::ast::QueryV::Select {
                columns: columns@,
                table: *table,
                where_clause: opt_where_view(*where_clause),
                group_by: group_by@,
                order_by: order_by@,
                limit: *limit,
                offset: *offset,
                joins: joins_view(joins@),
                lock: *lock,
            },
        ),
{
    let mut v: Vec<Token> = Vec::new();
    append2(&mut v, Token::Kw(Keyword::Select), Token::Punct(Punct::LBrace));
    emit_columns_all(&mut v, columns);
    append2(&mut v, Token::Kw(Keyword::From), Token::Ident(table.clone()));
    emit_joins_part(&mut v, joins);
    emit_where_part(&mut v, where_clause);
    emit_group_by_part(&mut v, group_by);
    emit_order_by_part(&mut v, order_by);
    emit_limit_part(&mut v, limit);
    emit_offset_part(&mut v, offset);
    emit_lock_part(&mut v, lock);
    proof {
        assert(Seq::<Token>::empty() + seq![
            Token::Kw(Keyword::Select),
            Token::Punct(Punct::LBrace),
        ] =~= seq![Token::Kw(Keyword::Select), Token::Punct(Punct::LBrace)]);
        assert(v@ == tokens_of_query(
            crate::ast::QueryV::Select {
                columns: columns@,
                table: *table,
                where_clause: opt_where_view(*where_clause),
                group_by: group_by@,
                order_by: order_by@,
                limit: *limit,
                offset: *offset,
                joins: joins_view(joins@),
                lock: *lock,
            },
        ));
    }
    v
}

impl Query {
    /// Re-serializes the tree to its canonical token form: absent or empty
    /// optional clauses emit nothing, lists carry no trailing comma, and no
    /// terminator is emitted.
    #[verifier::rlimit(100)]
    pub fn to_tokens(&self) -> (r: Vec<Token>)
        ensures
            r@ == tokens_of_query(self@),
    {
        match self {
            Query::Select {
                columns,
                table,
                where_clause,
                group_by,
                order_by,
                limit,
                offset,
                joins,
                lock,
            } => serial_select(
                columns,
                table,
                where_clause,
                group_by,
                order_by,
                limit,
                offset,
                joins,
                lock,
            ),
            Query::Insert { columns, table, returning } => {
                let mut v: Vec<Token> = Vec::new();
                v.push(Token::Kw(Keyword::Insert));
                v.push(Token::Punct(Punct::LBrace));
                emit_assigns_from(&mut v, columns, 0);
                v.push(Token::Kw(Keyword::Into));
                v.push(Token::Ident(table.clone()));
                emit_returning_part(&mut v, returning);
                proof {
                    assert(assigns_view(columns@).skip(0) =~= assigns_view(columns@));
                    assert(v@ =~= tokens_of_query(self@));
                }
                v
            },
            Query::Update { columns, table, where_clause, returning } => {
                let mut v: Vec<Token> = Vec::new();
                v.push(Token::Kw(Keyword::Update));
                v.push(Token::Ident(table.clone()));
                v.push(Token::Kw(Keyword::SetKw));
                v.push(Token::Punct(Punct::LBrace));
                emit_assigns_from(&mut v, columns, 0);
                emit_where_part(&mut v, where_clause);
                emit_returning_part(&mut v, returning);
                proof {
                    assert(assigns_view(columns@).skip(0) =~= assigns_view(columns@));
                    assert(v@ =~= tokens_of_query(self@));
                }
                v
            },
            Query::Delete { table, where_clause, returning } => {
                let mut v: Vec<Token> = Vec::new();
                v.push(Token::Kw(Keyword::Delete));
                v.push(Token::Kw(Keyword::From));
                v.push(Token::Ident(table.clone()));
                emit_where_part(&mut v, where_clause);
                emit_returning_part(&mut v, returning);
                proof {
                    assert(v@ =~= tokens_of_query(self@));
                }
                v
            },
        }
    }
}

} // verus!
