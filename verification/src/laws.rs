use vstd::prelude::*;

use crate::ast::{
    Column, ColumnConditionV, ConditionalV, JoinV, Ordering, QueryV, WhereV,
};
use crate::error::ParseError;
use crate::grammar::{
    peek_kw, peek_punct, spec_assigns_rest, spec_columns_rest, spec_conds_rest, spec_expr_end,
    spec_idents_rest, spec_joins_rest, spec_orders_rest, spec_parse_assign, spec_parse_column,
    spec_parse_conditional, spec_parse_expr, spec_parse_group, spec_parse_guarded_leaf,
    spec_parse_guarded_leaf_from, combinator_column, spec_parse_where_op,
    spec_parse_join, spec_parse_query, spec_parse_statement, spec_parse_where,
    spec_parse_where_clause, step_pos,
};
use crate::token::{spec_is_atom, spec_is_binop, Keyword, Punct, Token};

verus! {

// ---------------------------------------------------------------------------
// Well-formedness: what is true of every tree the parser builds, and what
// the round-trip law assumes of a tree it re-serializes. The only substance
// is that every stored expression is a non-empty operand/operator run.
// ---------------------------------------------------------------------------

/// A stored value expression: operands at even offsets, operators at odd
/// ones, of odd length.
pub open spec fn expr_wf(e: Seq<Token>) -> bool {
    e.len() % 2 == 1 && (forall|i: int|
        0 <= i < e.len() ==> (if i % 2 == 0 {
            spec_is_atom(#[trigger] e[i])
        } else {
            spec_is_binop(e[i])
        }))
}

pub open spec fn opt_expr_wf(o: Option<Seq<Token>>) -> bool {
    match o {
        Some(g) => expr_wf(g),
        None => true,
    }
}

pub open spec fn leaf_wf(c: ConditionalV<ColumnConditionV>) -> bool {
    expr_wf(c.value.value) && opt_expr_wf(c.condition)
}

pub open spec fn where_wf(w: WhereV) -> bool
    decreases w, 1int,
{
    match w {
        WhereV::Column(c) => leaf_wf(c),
        WhereV::BoolWhere(b) => conds_wf(b.conditions),
    }
}

pub open spec fn cond_wf(c: ConditionalV<WhereV>) -> bool
    decreases c, 2int,
{
    &&& where_wf(c.value)
    &&& opt_expr_wf(c.condition)
    &&& match c.value {
        // an `if` directly after an unguarded leaf binds to the leaf, so a
        // parsed child that is an unguarded leaf never carries an outer guard
        WhereV::Column(lc) => lc.condition is None ==> c.condition is None,
        WhereV::BoolWhere(_) => true,
    }
}

pub open spec fn conds_wf(cs: Seq<ConditionalV<WhereV>>) -> bool
    decreases cs, 3int,
{
    forall|i: int| 0 <= i < cs.len() ==> cond_wf(#[trigger] cs[i])
}

pub open spec fn opt_where_wf(o: Option<WhereV>) -> bool {
    match o {
        Some(w) => where_wf(w),
        None => true,
    }
}

pub open spec fn join_wf(j: JoinV) -> bool {
    expr_wf(j.on)
}

pub open spec fn joins_wf(js: Seq<JoinV>) -> bool {
    forall|i: int| 0 <= i < js.len() ==> join_wf(#[trigger] js[i])
}

pub open spec fn assigns_wf(cs: Seq<(String, Seq<Token>)>) -> bool {
    forall|i: int| 0 <= i < cs.len() ==> expr_wf(#[trigger] cs[i].1)
}

/// Every expression stored anywhere in the tree is well formed.
pub open spec fn query_wf(q: QueryV) -> bool {
    match q {
        QueryV::Select { where_clause, joins, .. } => joins_wf(joins) && opt_where_wf(
            where_clause,
        ),
        QueryV::Update { columns, where_clause, .. } => assigns_wf(columns) && opt_where_wf(
            where_clause,
        ),
        QueryV::Insert { columns, .. } => assigns_wf(columns),
        QueryV::Delete { where_clause, .. } => opt_where_wf(where_clause),
    }
}

// ---------------------------------------------------------------------------
// Properties of the greedy expression walk.
// ---------------------------------------------------------------------------

pub proof fn lemma_expr_end_props(t: Seq<Token>, p: int)
    requires
        0 <= p <= t.len(),
    ensures
        p <= spec_expr_end(t, p) <= t.len(),
        (spec_expr_end(t, p) - p) % 2 == 0,
        forall|i: int|
            p <= i < spec_expr_end(t, p) ==> (if (i - p) % 2 == 0 {
                spec_is_binop(#[trigger] t[i])
            } else {
                spec_is_atom(t[i])
            }),
    decreases t.len() - p,
{
    if p + 1 < t.len() && spec_is_binop(t[p]) && spec_is_atom(t[p + 1]) {
        lemma_expr_end_props(t, p + 2);
    }
}

/// A successful expression parse returns the consumed well-formed run.
pub proof fn lemma_expr_sound(t: Seq<Token>, pos: int)
    requires
        0 <= pos,
    ensures
        spec_parse_expr(t, pos) matches Ok((e, p)) ==> {
            &&& expr_wf(e)
            &&& pos < p <= t.len()
            &&& e == t.subrange(pos, p)
            &&& e.len() == p - pos
        },
{
    if 0 <= pos < t.len() && spec_is_atom(t[pos]) {
        lemma_expr_end_props(t, pos + 1);
    }
}

// ---------------------------------------------------------------------------
// Soundness: every tree the grammar accepts is well formed.
// ---------------------------------------------------------------------------

pub proof fn lemma_guarded_leaf_from_sound(t: Seq<Token>, pos: int, column: String)
    requires
        0 <= pos,
    ensures
        spec_parse_guarded_leaf_from(t, pos, column) matches Ok((c, p)) ==> leaf_wf(c) && pos < p
            <= t.len(),
{
    match spec_parse_where_op(t, pos) {
        Ok((_, p2)) => {
            lemma_expr_sound(t, p2);
            match spec_parse_expr(t, p2) {
                Ok((_, p3)) => {
                    lemma_expr_sound(t, p3 + 1);
                },
                Err(_) => {},
            }
        },
        Err(_) => {},
    }
}

pub proof fn lemma_leaf_sound(t: Seq<Token>, pos: int)
    requires
        0 <= pos,
    ensures
        spec_parse_guarded_leaf(t, pos) matches Ok((c, p)) ==> leaf_wf(c) && pos < p <= t.len(),
{
    match crate::grammar::spec_parse_ident(t, pos) {
        Ok((column, p1)) => {
            lemma_guarded_leaf_from_sound(t, p1, column);
        },
        Err(_) => {},
    }
}

pub proof fn lemma_where_sound(t: Seq<Token>, pos: int)
    requires
        0 <= pos,
    ensures
        spec_parse_where(t, pos) matches Ok((w, p)) ==> where_wf(w) && pos < p <= t.len(),
    decreases t.len() - pos, 1int,
{
    if (peek_kw(t, pos, Keyword::And) || peek_kw(t, pos, Keyword::Or)) && peek_punct(
        t,
        pos + 1,
        Punct::Colon,
    ) {
        lemma_group_sound(t, pos);
    } else if peek_kw(t, pos, Keyword::And) {
        lemma_guarded_leaf_from_sound(t, pos + 1, combinator_column(Keyword::And));
    } else if peek_kw(t, pos, Keyword::Or) {
        lemma_guarded_leaf_from_sound(t, pos + 1, combinator_column(Keyword::Or));
    } else {
        lemma_leaf_sound(t, pos);
    }
}

pub proof fn lemma_group_sound(t: Seq<Token>, pos: int)
    requires
        0 <= pos,
    ensures
        spec_parse_group(t, pos) matches Ok((b, p)) ==> conds_wf(b.conditions) && pos < p
            <= t.len(),
    decreases t.len() - pos, 0int,
{
    if (peek_kw(t, pos, Keyword::And) || peek_kw(t, pos, Keyword::Or)) && peek_punct(
        t,
        pos + 1,
        Punct::Colon,
    ) && peek_punct(t, pos + 2, Punct::LBrace) {
        lemma_conds_rest_sound(t, pos + 3, Seq::empty());
    }
}

pub proof fn lemma_conditional_sound(t: Seq<Token>, pos: int)
    requires
        0 <= pos,
    ensures
        spec_parse_conditional(t, pos) matches Ok((c, p)) ==> cond_wf(c) && pos < p <= t.len(),
    decreases t.len() - pos, 2int,
{
    lemma_where_sound(t, pos);
    match spec_parse_where(t, pos) {
        Ok((_, p)) => {
            lemma_expr_sound(t, p + 1);
        },
        Err(_) => {},
    }
}

pub proof fn lemma_conds_rest_sound(t: Seq<Token>, pos: int, acc: Seq<ConditionalV<WhereV>>)
    requires
        0 <= pos,
        conds_wf(acc),
    ensures
        spec_conds_rest(t, pos, acc) matches Ok((cs, p)) ==> conds_wf(cs) && pos < p <= t.len(),
    decreases t.len() - pos, 3int,
{
    if !(0 <= pos < t.len()) {
    } else if peek_punct(t, pos, Punct::RBrace) {
    } else {
        lemma_conditional_sound(t, pos);
        match spec_parse_conditional(t, pos) {
            Ok((c, p)) => {
                if peek_punct(t, p, Punct::Comma) {
                    assert(forall|i: int|
                        0 <= i < acc.push(c).len() ==> cond_wf(#[trigger] acc.push(c)[i]));
                    lemma_conds_rest_sound(t, step_pos(p, pos, t.len() as int), acc.push(c));
                } else if peek_punct(t, p, Punct::RBrace) {
                    assert(forall|i: int|
                        0 <= i < acc.push(c).len() ==> cond_wf(#[trigger] acc.push(c)[i]));
                }
            },
            Err(_) => {},
        }
    }
}

pub proof fn lemma_where_clause_sound(t: Seq<Token>, pos: int)
    requires
        0 <= pos,
    ensures
        spec_parse_where_clause(t, pos) matches Ok((o, p)) ==> opt_where_wf(o) && pos <= p,
{
    lemma_where_sound(t, pos + 1);
}

pub proof fn lemma_join_sound(t: Seq<Token>, pos: int)
    requires
        0 <= pos,
    ensures
        spec_parse_join(t, pos) matches Ok((j, p)) ==> join_wf(j) && pos < p <= t.len(),
{
    match crate::grammar::spec_parse_join_type(t, pos) {
        Ok((_, p1)) => {
            let p2 = if peek_kw(t, p1, Keyword::Outer) {
                p1 + 1
            } else {
                p1
            };
            match crate::grammar::spec_parse_ident(t, p2 + 1) {
                Ok((_, p3)) => {
                    lemma_expr_sound(t, p3 + 1);
                },
                Err(_) => {},
            }
        },
        Err(_) => {},
    }
}

pub proof fn lemma_joins_rest_sound(t: Seq<Token>, pos: int, acc: Seq<JoinV>)
    requires
        0 <= pos,
        joins_wf(acc),
    ensures
        spec_joins_rest(t, pos, acc) matches Ok((js, p)) ==> joins_wf(js) && pos < p <= t.len(),
    decreases t.len() - pos,
{
    if !(0 <= pos < t.len()) {
    } else if peek_punct(t, pos, Punct::RBrace) {
    } else {
        lemma_join_sound(t, pos);
        match spec_parse_join(t, pos) {
            Ok((j, p)) => {
                if peek_punct(t, p, Punct::Comma) {
                    assert(forall|i: int|
                        0 <= i < acc.push(j).len() ==> join_wf(#[trigger] acc.push(j)[i]));
                    lemma_joins_rest_sound(t, step_pos(p, pos, t.len() as int), acc.push(j));
                } else if peek_punct(t, p, Punct::RBrace) {
                    assert(forall|i: int|
                        0 <= i < acc.push(j).len() ==> join_wf(#[trigger] acc.push(j)[i]));
                }
            },
            Err(_) => {},
        }
    }
}

pub proof fn lemma_assigns_rest_sound(t: Seq<Token>, pos: int, acc: Seq<(String, Seq<Token>)>)
    requires
        0 <= pos,
        assigns_wf(acc),
    ensures
        spec_assigns_rest(t, pos, acc) matches Ok((cs, p)) ==> assigns_wf(cs) && pos < p
            <= t.len(),
    decreases t.len() - pos,
{
    if !(0 <= pos < t.len()) {
    } else if peek_punct(t, pos, Punct::RBrace) {
    } else {
        lemma_expr_sound(t, pos + 2);
        match spec_parse_assign(t, pos) {
            Ok((a, p)) => {
                if peek_punct(t, p, Punct::Comma) {
                    assert(forall|i: int|
                        0 <= i < acc.push(a).len() ==> expr_wf(#[trigger] acc.push(a)[i].1));
                    lemma_assigns_rest_sound(t, step_pos(p, pos, t.len() as int), acc.push(a));
                } else if peek_punct(t, p, Punct::RBrace) {
                    assert(forall|i: int|
                        0 <= i < acc.push(a).len() ==> expr_wf(#[trigger] acc.push(a)[i].1));
                }
            },
            Err(_) => {},
        }
    }
}

/// Soundness: any tree the dispatcher accepts is well formed.
pub proof fn lemma_query_sound(t: Seq<Token>, pos: int)
    requires
        0 <= pos,
    ensures
        spec_parse_query(t, pos) matches Ok((q, p)) ==> query_wf(q),
{
    if peek_kw(t, pos, Keyword::Select) {
        match crate::grammar::spec_parse_column_list(t, pos + 1) {
            Ok((_, p1)) => match crate::grammar::spec_parse_ident(t, p1 + 1) {
                Ok((_, p2)) => {
                    lemma_joins_rest_sound(t, p2 + 1, Seq::empty());
                    match crate::grammar::spec_parse_joins_opt(t, p2) {
                        Ok((_, p3)) => {
                            lemma_where_clause_sound(t, p3);
                        },
                        Err(_) => {},
                    }
                },
                Err(_) => {},
            },
            Err(_) => {},
        }
    } else if peek_kw(t, pos, Keyword::Insert) {
        lemma_assigns_rest_sound(t, pos + 2, Seq::empty());
    } else if peek_kw(t, pos, Keyword::Update) {
        match crate::grammar::spec_parse_ident(t, pos + 1) {
            Ok((_, p1)) => {
                lemma_assigns_rest_sound(t, p1 + 2, Seq::empty());
                match spec_assigns_rest(t, p1 + 2, Seq::empty()) {
                    Ok((_, p2)) => {
                        lemma_where_clause_sound(t, p2);
                    },
                    Err(_) => {},
                }
            },
            Err(_) => {},
        }
    } else if peek_kw(t, pos, Keyword::Delete) {
        match crate::grammar::spec_parse_ident(t, pos + 2) {
            Ok((_, p1)) => {
                lemma_where_clause_sound(t, p1);
            },
            Err(_) => {},
        }
    }
}


// ---------------------------------------------------------------------------
// Completeness on canonical forms: a well-formed tree's canonical token
// form parses back to exactly that tree. Together with soundness this is
// the round-trip law.
// ---------------------------------------------------------------------------

/// `s` occupies `t` from `pos` on.
pub open spec fn seg_at(t: Seq<Token>, pos: int, s: Seq<Token>) -> bool {
    0 <= pos && pos + s.len() <= t.len() && t.subrange(pos, pos + s.len()) == s
}

/// No binary operator stands at `p`: a greedy expression walk stops there.
pub open spec fn expr_follow(t: Seq<Token>, p: int) -> bool {
    p == t.len() || !spec_is_binop(t[p])
}

/// The guard keyword does not stand at `p`.
pub open spec fn not_if_at(t: Seq<Token>, p: int) -> bool {
    p == t.len() || t[p] != Token::Kw(Keyword::If)
}

/// The alias keyword does not stand at `p`.
pub open spec fn not_as_at(t: Seq<Token>, p: int) -> bool {
    p == t.len() || t[p] != Token::Kw(Keyword::As)
}

/// What a where-node's parse needs of the token after it: nothing for a
/// group, and for a leaf only that no operator continues its last
/// expression, and that no stray `if` follows an unguarded leaf.
pub open spec fn where_follow(t: Seq<Token>, p: int, w: WhereV) -> bool {
    expr_follow(t, p) && (match w {
        WhereV::Column(lc) => lc.condition is None ==> not_if_at(t, p),
        WhereV::BoolWhere(_) => true,
    })
}

pub proof fn lemma_seg_tok(t: Seq<Token>, pos: int, s: Seq<Token>, i: int)
    requires
        seg_at(t, pos, s),
        0 <= i < s.len(),
    ensures
        t[pos + i] == s[i],
{
    assert(t.subrange(pos, pos + s.len())[i] == s[i]);
}

pub proof fn lemma_seg_split(t: Seq<Token>, pos: int, a: Seq<Token>, b: Seq<Token>)
    requires
        seg_at(t, pos, a + b),
    ensures
        seg_at(t, pos, a),
        seg_at(t, pos + a.len(), b),
{
    assert forall|i: int| 0 <= i < a.len() implies t.subrange(pos, pos + a.len())[i] == a[i] by {
        assert(t.subrange(pos, pos + (a + b).len())[i] == (a + b)[i]);
    }
    assert(t.subrange(pos, pos + a.len()) =~= a);
    assert forall|i: int|
        0 <= i < b.len() implies t.subrange(pos + a.len(), pos + a.len() + b.len())[i] == b[i] by {
        assert(t.subrange(pos, pos + (a + b).len())[a.len() + i] == (a + b)[a.len() + i]);
    }
    assert(t.subrange(pos + a.len(), pos + a.len() + b.len()) =~= b);
}

pub proof fn lemma_expr_end_complete(t: Seq<Token>, pos: int, e: Seq<Token>)
    requires
        expr_wf(e),
        seg_at(t, pos, e),
        expr_follow(t, pos + e.len()),
    ensures
        spec_expr_end(t, pos + 1) == pos + e.len(),
    decreases e.len(),
{
    if e.len() == 1 {
    } else {
        lemma_seg_tok(t, pos, e, 1);
        lemma_seg_tok(t, pos, e, 2);
        let e2 = e.skip(2);
        assert(e2.len() % 2 == 1);
        assert(forall|i: int|
            0 <= i < e2.len() ==> (if i % 2 == 0 {
                spec_is_atom(#[trigger] e2[i])
            } else {
                spec_is_binop(e2[i])
            }));
        assert forall|i: int| 0 <= i < e2.len() implies t.subrange(pos + 2, pos + 2 + e2.len())[i]
            == e2[i] by {
            assert(t.subrange(pos, pos + e.len())[2 + i] == e[2 + i]);
        }
        assert(t.subrange(pos + 2, pos + 2 + e2.len()) =~= e2);
        lemma_expr_end_complete(t, pos + 2, e2);
    }
}

pub proof fn lemma_expr_complete(t: Seq<Token>, pos: int, e: Seq<Token>)
    requires
        expr_wf(e),
        seg_at(t, pos, e),
        expr_follow(t, pos + e.len()),
    ensures
        spec_parse_expr(t, pos) == Ok::<(Seq<Token>, int), ParseError>((e, pos + e.len())),
{
    lemma_seg_tok(t, pos, e, 0);
    lemma_expr_end_complete(t, pos, e);
    assert(t.subrange(pos, pos + e.len()) == e);
}

pub proof fn lemma_where_op_complete(t: Seq<Token>, pos: int, op: crate::ast::WhereOp)
    requires
        seg_at(t, pos, crate::emit::tokens_of_where_op(op)),
    ensures
        crate::grammar::spec_parse_where_op(t, pos) == Ok::<
            (crate::ast::WhereOp, int),
            ParseError,
        >((op, pos + crate::emit::tokens_of_where_op(op).len())),
{
    let s = crate::emit::tokens_of_where_op(op);
    lemma_seg_tok(t, pos, s, 0);
    if s.len() > 1 {
        lemma_seg_tok(t, pos, s, 1);
    }
}

pub proof fn lemma_column_complete(t: Seq<Token>, pos: int, c: Column)
    requires
        seg_at(t, pos, crate::emit::tokens_of_column(c)),
        not_as_at(t, pos + crate::emit::tokens_of_column(c).len()),
    ensures
        spec_parse_column(t, pos) == Ok::<(Column, int), ParseError>(
            (c, pos + crate::emit::tokens_of_column(c).len()),
        ),
{
    let s = crate::emit::tokens_of_column(c);
    lemma_seg_tok(t, pos, s, 0);
    match c {
        Column::All => {},
        Column::Named(name, alias) => match alias {
            Some(a) => {
                lemma_seg_tok(t, pos, s, 1);
                lemma_seg_tok(t, pos, s, 2);
            },
            None => {},
        },
    }
}

// --- the condition tree ---

pub proof fn lemma_where_tokens_head(w: WhereV)
    ensures
        crate::emit::tokens_of_where(w).len() >= 1,
        crate::emit::tokens_of_where(w)[0] == Token::Kw(Keyword::And) || crate::emit::tokens_of_where(
            w,
        )[0] == Token::Kw(Keyword::Or) || (crate::emit::tokens_of_where(w)[0] matches Token::Ident(
            _,
        )),
{
    match w {
        WhereV::Column(c) => {
            assert(crate::emit::tokens_of_where(w)[0] == Token::Ident(c.value.column));
        },
        WhereV::BoolWhere(b) => {
            match b.op {
                crate::ast::BoolOp::And => {
                    assert(crate::emit::tokens_of_where(w)[0] == Token::Kw(Keyword::And));
                },
                crate::ast::BoolOp::Or => {
                    assert(crate::emit::tokens_of_where(w)[0] == Token::Kw(Keyword::Or));
                },
            }
        },
    }
}

pub proof fn lemma_leaf_complete(t: Seq<Token>, pos: int, c: ConditionalV<ColumnConditionV>)
    requires
        leaf_wf(c),
        seg_at(
            t,
            pos,
            crate::emit::tokens_of_cc(c.value) + crate::emit::guard_tokens(c.condition),
        ),
        expr_follow(
            t,
            pos + (crate::emit::tokens_of_cc(c.value) + crate::emit::guard_tokens(
                c.condition,
            )).len(),
        ),
        c.condition is None ==> not_if_at(
            t,
            pos + (crate::emit::tokens_of_cc(c.value) + crate::emit::guard_tokens(
                c.condition,
            )).len(),
        ),
    ensures
        spec_parse_guarded_leaf(t, pos) == Ok::<
            (ConditionalV<ColumnConditionV>, int),
            ParseError,
        >(
            (
                c,
                pos + (crate::emit::tokens_of_cc(c.value) + crate::emit::guard_tokens(
                    c.condition,
                )).len(),
            ),
        ),
{
    let cc = crate::emit::tokens_of_cc(c.value);
    let g = crate::emit::guard_tokens(c.condition);
    lemma_seg_split(t, pos, cc, g);
    let ops = crate::emit::tokens_of_where_op(c.value.op);
    assert(cc =~= (seq![Token::Ident(c.value.column)] + ops) + c.value.value);
    lemma_seg_split(t, pos, seq![Token::Ident(c.value.column)] + ops, c.value.value);
    lemma_seg_split(t, pos, seq![Token::Ident(c.value.column)], ops);
    lemma_seg_tok(t, pos, cc, 0);
    let p1 = pos + 1;
    lemma_where_op_complete(t, p1, c.value.op);
    let p2 = p1 + ops.len();
    let p3 = p2 + c.value.value.len();
    match c.condition {
        Some(ge) => {
            lemma_seg_tok(t, pos + cc.len(), g, 0);
            assert(t[p3] == Token::Kw(Keyword::If));
            lemma_expr_complete(t, p2, c.value.value);
            assert(g =~= seq![Token::Kw(Keyword::If)] + ge);
            lemma_seg_split(t, p3, seq![Token::Kw(Keyword::If)], ge);
            lemma_expr_complete(t, p3 + 1, ge);
        },
        None => {
            assert(pos + cc.len() + g.len() == p3);
            lemma_expr_complete(t, p2, c.value.value);
        },
    }
}

pub proof fn lemma_where_complete(t: Seq<Token>, pos: int, w: WhereV)
    requires
        where_wf(w),
        seg_at(t, pos, crate::emit::tokens_of_where(w)),
        where_follow(t, pos + crate::emit::tokens_of_where(w).len(), w),
    ensures
        spec_parse_where(t, pos) == Ok::<(WhereV, int), ParseError>(
            (w, pos + crate::emit::tokens_of_where(w).len()),
        ),
    decreases w, 1int,
{
    let s = crate::emit::tokens_of_where(w);
    lemma_seg_tok(t, pos, s, 0);
    match w {
        WhereV::Column(c) => {
            assert(s[0] == Token::Ident(c.value.column));
            lemma_leaf_complete(t, pos, c);
        },
        WhereV::BoolWhere(b) => {
            let opt = crate::emit::tokens_of_bool_op(b.op);
            let mid = seq![Token::Punct(Punct::Colon), Token::Punct(Punct::LBrace)];
            let body = crate::emit::conds_body(b.conditions);
            assert(s =~= (opt + mid) + body);
            lemma_seg_split(t, pos, opt + mid, body);
            lemma_seg_split(t, pos, opt, mid);
            lemma_seg_tok(t, pos + 1, mid, 0);
            lemma_seg_tok(t, pos + 1, mid, 1);
            lemma_conds_rest_complete(t, pos + 3, Seq::empty(), b.conditions);
            assert(Seq::<ConditionalV<WhereV>>::empty() + b.conditions =~= b.conditions);
        },
    }
}

pub proof fn lemma_cond_complete(t: Seq<Token>, pos: int, c: ConditionalV<WhereV>)
    requires
        cond_wf(c),
        seg_at(t, pos, crate::emit::tokens_of_cond(c)),
        expr_follow(t, pos + crate::emit::tokens_of_cond(c).len()),
        not_if_at(t, pos + crate::emit::tokens_of_cond(c).len()),
    ensures
        spec_parse_conditional(t, pos) == Ok::<(ConditionalV<WhereV>, int), ParseError>(
            (c, pos + crate::emit::tokens_of_cond(c).len()),
        ),
    decreases c, 2int,
{
    let ws = crate::emit::tokens_of_where(c.value);
    let g = crate::emit::guard_tokens(c.condition);
    lemma_seg_split(t, pos, ws, g);
    let p = pos + ws.len();
    match c.condition {
        Some(ge) => {
            lemma_seg_tok(t, p, g, 0);
            assert(t[p] == Token::Kw(Keyword::If));
            lemma_where_complete(t, pos, c.value);
            assert(g =~= seq![Token::Kw(Keyword::If)] + ge);
            lemma_seg_split(t, p, seq![Token::Kw(Keyword::If)], ge);
            lemma_expr_complete(t, p + 1, ge);
        },
        None => {
            assert(pos + ws.len() + g.len() == p);
            lemma_where_complete(t, pos, c.value);
        },
    }
}

pub proof fn lemma_conds_rest_complete(
    t: Seq<Token>,
    pos: int,
    acc: Seq<ConditionalV<WhereV>>,
    cs: Seq<ConditionalV<WhereV>>,
)
    requires
        conds_wf(cs),
        seg_at(t, pos, crate::emit::conds_body(cs)),
    ensures
        spec_conds_rest(t, pos, acc) == Ok::<(Seq<ConditionalV<WhereV>>, int), ParseError>(
            (acc + cs, pos + crate::emit::conds_body(cs).len()),
        ),
    decreases cs, 3int,
{
    let body = crate::emit::conds_body(cs);
    if cs.len() == 0 {
        lemma_seg_tok(t, pos, body, 0);
        assert(acc + cs =~= acc);
    } else {
        let e = crate::emit::tokens_of_cond(cs[0]);
        let tail = if cs.len() == 1 {
            seq![Token::Punct(Punct::RBrace)]
        } else {
            seq![Token::Punct(Punct::Comma)] + crate::emit::conds_body(cs.drop_first())
        };
        assert(body =~= e + tail);
        lemma_seg_split(t, pos, e, tail);
        lemma_where_tokens_head(cs[0].value);
        lemma_seg_tok(t, pos, e, 0);
        assert(e[0] == crate::emit::tokens_of_where(cs[0].value)[0]);
        let p = pos + e.len();
        lemma_seg_tok(t, p, tail, 0);
        assert(cond_wf(cs[0]));
        lemma_cond_complete(t, pos, cs[0]);
        if cs.len() == 1 {
            assert(acc.push(cs[0]) =~= acc + cs);
        } else {
            assert(step_pos(p, pos, t.len() as int) == p + 1);
            lemma_seg_split(t, p, seq![Token::Punct(Punct::Comma)], crate::emit::conds_body(
                cs.drop_first(),
            ));
            assert(conds_wf(cs.drop_first()));
            lemma_conds_rest_complete(t, p + 1, acc.push(cs[0]), cs.drop_first());
            assert(acc.push(cs[0]) + cs.drop_first() =~= acc + cs);
        }
    }
}


// --- the flat lists ---

pub proof fn lemma_columns_rest_complete(t: Seq<Token>, pos: int, acc: Seq<Column>, cs: Seq<Column>)
    requires
        seg_at(t, pos, crate::emit::columns_body(cs)),
    ensures
        spec_columns_rest(t, pos, acc) == Ok::<(Seq<Column>, int), ParseError>(
            (acc + cs, pos + crate::emit::columns_body(cs).len()),
        ),
    decreases cs.len(),
{
    let body = crate::emit::columns_body(cs);
    if cs.len() == 0 {
        lemma_seg_tok(t, pos, body, 0);
        assert(acc + cs =~= acc);
    } else {
        let e = crate::emit::tokens_of_column(cs[0]);
        let tail = if cs.len() == 1 {
            seq![Token::Punct(Punct::RBrace)]
        } else {
            seq![Token::Punct(Punct::Comma)] + crate::emit::columns_body(cs.drop_first())
        };
        assert(body =~= e + tail);
        lemma_seg_split(t, pos, e, tail);
        lemma_seg_tok(t, pos, e, 0);
        match cs[0] {
            Column::All => {},
            Column::Named(_, _) => {},
        }
        let p = pos + e.len();
        lemma_seg_tok(t, p, tail, 0);
        lemma_column_complete(t, pos, cs[0]);
        if cs.len() == 1 {
            assert(acc.push(cs[0]) =~= acc + cs);
        } else {
            assert(step_pos(p, pos, t.len() as int) == p + 1);
            lemma_seg_split(t, p, seq![Token::Punct(Punct::Comma)], crate::emit::columns_body(
                cs.drop_first(),
            ));
            lemma_columns_rest_complete(t, p + 1, acc.push(cs[0]), cs.drop_first());
            assert(acc.push(cs[0]) + cs.drop_first() =~= acc + cs);
        }
    }
}

pub proof fn lemma_idents_rest_complete(t: Seq<Token>, pos: int, acc: Seq<String>, cs: Seq<String>)
    requires
        seg_at(t, pos, crate::emit::idents_body(cs)),
    ensures
        spec_idents_rest(t, pos, acc) == Ok::<(Seq<String>, int), ParseError>(
            (acc + cs, pos + crate::emit::idents_body(cs).len()),
        ),
    decreases cs.len(),
{
    let body = crate::emit::idents_body(cs);
    if cs.len() == 0 {
        lemma_seg_tok(t, pos, body, 0);
        assert(acc + cs =~= acc);
    } else {
        let e = seq![Token::Ident(cs[0])];
        let tail = if cs.len() == 1 {
            seq![Token::Punct(Punct::RBrace)]
        } else {
            seq![Token::Punct(Punct::Comma)] + crate::emit::idents_body(cs.drop_first())
        };
        assert(body =~= e + tail);
        lemma_seg_split(t, pos, e, tail);
        lemma_seg_tok(t, pos, e, 0);
        let p = pos + 1;
        lemma_seg_tok(t, p, tail, 0);
        if cs.len() == 1 {
            assert(acc.push(cs[0]) =~= acc + cs);
        } else {
            assert(step_pos(p, pos, t.len() as int) == p + 1);
            lemma_seg_split(t, p, seq![Token::Punct(Punct::Comma)], crate::emit::idents_body(
                cs.drop_first(),
            ));
            lemma_idents_rest_complete(t, p + 1, acc.push(cs[0]), cs.drop_first());
            assert(acc.push(cs[0]) + cs.drop_first() =~= acc + cs);
        }
    }
}

pub proof fn lemma_orders_rest_complete(
    t: Seq<Token>,
    pos: int,
    acc: Seq<(String, Ordering)>,
    cs: Seq<(String, Ordering)>,
)
    requires
        seg_at(t, pos, crate::emit::orders_body(cs)),
    ensures
        spec_orders_rest(t, pos, acc) == Ok::<(Seq<(String, Ordering)>, int), ParseError>(
            (acc + cs, pos + crate::emit::orders_body(cs).len()),
        ),
    decreases cs.len(),
{
    let body = crate::emit::orders_body(cs);
    if cs.len() == 0 {
        lemma_seg_tok(t, pos, body, 0);
        assert(acc + cs =~= acc);
    } else {
        let e = seq![Token::Ident(cs[0].0)] + crate::emit::tokens_of_ordering(cs[0].1);
        let tail = if cs.len() == 1 {
            seq![Token::Punct(Punct::RBrace)]
        } else {
            seq![Token::Punct(Punct::Comma)] + crate::emit::orders_body(cs.drop_first())
        };
        assert(body =~= e + tail);
        lemma_seg_split(t, pos, e, tail);
        lemma_seg_tok(t, pos, e, 0);
        lemma_seg_tok(t, pos, e, 1);
        let p = pos + e.len();
        lemma_seg_tok(t, p, tail, 0);
        if cs.len() == 1 {
            assert(acc.push(cs[0]) =~= acc + cs);
        } else {
            assert(step_pos(p, pos, t.len() as int) == p + 1);
            lemma_seg_split(t, p, seq![Token::Punct(Punct::Comma)], crate::emit::orders_body(
                cs.drop_first(),
            ));
            lemma_orders_rest_complete(t, p + 1, acc.push(cs[0]), cs.drop_first());
            assert(acc.push(cs[0]) + cs.drop_first() =~= acc + cs);
        }
    }
}

pub proof fn lemma_assign_complete(t: Seq<Token>, pos: int, a: (String, Seq<Token>))
    requires
        expr_wf(a.1),
        seg_at(t, pos, seq![Token::Ident(a.0), Token::Punct(Punct::Assign)] + a.1),
        expr_follow(
            t,
            pos + (seq![Token::Ident(a.0), Token::Punct(Punct::Assign)] + a.1).len(),
        ),
    ensures
        spec_parse_assign(t, pos) == Ok::<((String, Seq<Token>), int), ParseError>(
            (a, pos + (seq![Token::Ident(a.0), Token::Punct(Punct::Assign)] + a.1).len()),
        ),
{
    let head = seq![Token::Ident(a.0), Token::Punct(Punct::Assign)];
    lemma_seg_split(t, pos, head, a.1);
    lemma_seg_tok(t, pos, head, 0);
    lemma_seg_tok(t, pos, head, 1);
    lemma_expr_complete(t, pos + 2, a.1);
}

pub proof fn lemma_assigns_rest_complete(
    t: Seq<Token>,
    pos: int,
    acc: Seq<(String, Seq<Token>)>,
    cs: Seq<(String, Seq<Token>)>,
)
    requires
        assigns_wf(cs),
        seg_at(t, pos, crate::emit::assigns_body(cs)),
    ensures
        spec_assigns_rest(t, pos, acc) == Ok::<(Seq<(String, Seq<Token>)>, int), ParseError>(
            (acc + cs, pos + crate::emit::assigns_body(cs).len()),
        ),
    decreases cs.len(),
{
    let body = crate::emit::assigns_body(cs);
    if cs.len() == 0 {
        lemma_seg_tok(t, pos, body, 0);
        assert(acc + cs =~= acc);
    } else {
        let e = seq![Token::Ident(cs[0].0), Token::Punct(Punct::Assign)] + cs[0].1;
        let tail = if cs.len() == 1 {
            seq![Token::Punct(Punct::RBrace)]
        } else {
            seq![Token::Punct(Punct::Comma)] + crate::emit::assigns_body(cs.drop_first())
        };
        assert(body =~= e + tail);
        lemma_seg_split(t, pos, e, tail);
        lemma_seg_tok(t, pos, e, 0);
        let p = pos + e.len();
        lemma_seg_tok(t, p, tail, 0);
        lemma_assign_complete(t, pos, cs[0]);
        if cs.len() == 1 {
            assert(acc.push(cs[0]) =~= acc + cs);
        } else {
            assert(step_pos(p, pos, t.len() as int) == p + 1);
            lemma_seg_split(t, p, seq![Token::Punct(Punct::Comma)], crate::emit::assigns_body(
                cs.drop_first(),
            ));
            assert(assigns_wf(cs.drop_first()));
            lemma_assigns_rest_complete(t, p + 1, acc.push(cs[0]), cs.drop_first());
            assert(acc.push(cs[0]) + cs.drop_first() =~= acc + cs);
        }
    }
}

pub proof fn lemma_join_complete(t: Seq<Token>, pos: int, j: JoinV)
    requires
        join_wf(j),
        seg_at(t, pos, crate::emit::tokens_of_join(j)),
        expr_follow(t, pos + crate::emit::tokens_of_join(j).len()),
    ensures
        spec_parse_join(t, pos) == Ok::<(JoinV, int), ParseError>(
            (j, pos + crate::emit::tokens_of_join(j).len()),
        ),
{
    let a1 = crate::emit::tokens_of_join_type(j.join_type);
    let a2 = if j.outer {
        seq![Token::Kw(Keyword::Outer)]
    } else {
        Seq::<Token>::empty()
    };
    let a3 = seq![Token::Kw(Keyword::Join), Token::Ident(j.table), Token::Kw(Keyword::On)];
    let s = crate::emit::tokens_of_join(j);
    assert(s =~= ((a1 + a2) + a3) + j.on);
    lemma_seg_split(t, pos, (a1 + a2) + a3, j.on);
    lemma_seg_split(t, pos, a1 + a2, a3);
    lemma_seg_split(t, pos, a1, a2);
    lemma_seg_tok(t, pos, a1, 0);
    let p1 = pos + 1;
    if j.outer {
        lemma_seg_tok(t, p1, a2, 0);
    }
    let p2 = p1 + a2.len();
    lemma_seg_tok(t, p2, a3, 0);
    lemma_seg_tok(t, p2, a3, 1);
    lemma_seg_tok(t, p2, a3, 2);
    lemma_expr_complete(t, p2 + 3, j.on);
}

pub proof fn lemma_joins_rest_complete(t: Seq<Token>, pos: int, acc: Seq<JoinV>, cs: Seq<JoinV>)
    requires
        joins_wf(cs),
        seg_at(t, pos, crate::emit::joins_body(cs)),
    ensures
        spec_joins_rest(t, pos, acc) == Ok::<(Seq<JoinV>, int), ParseError>(
            (acc + cs, pos + crate::emit::joins_body(cs).len()),
        ),
    decreases cs.len(),
{
    let body = crate::emit::joins_body(cs);
    if cs.len() == 0 {
        lemma_seg_tok(t, pos, body, 0);
        assert(acc + cs =~= acc);
    } else {
        let e = crate::emit::tokens_of_join(cs[0]);
        let tail = if cs.len() == 1 {
            seq![Token::Punct(Punct::RBrace)]
        } else {
            seq![Token::Punct(Punct::Comma)] + crate::emit::joins_body(cs.drop_first())
        };
        assert(body =~= e + tail);
        lemma_seg_split(t, pos, e, tail);
        lemma_seg_tok(t, pos, e, 0);
        assert(e[0] == crate::emit::tokens_of_join_type(cs[0].join_type)[0]);
        let p = pos + e.len();
        lemma_seg_tok(t, p, tail, 0);
        lemma_join_complete(t, pos, cs[0]);
        if cs.len() == 1 {
            assert(acc.push(cs[0]) =~= acc + cs);
        } else {
            assert(step_pos(p, pos, t.len() as int) == p + 1);
            lemma_seg_split(t, p, seq![Token::Punct(Punct::Comma)], crate::emit::joins_body(
                cs.drop_first(),
            ));
            assert(joins_wf(cs.drop_first()));
            lemma_joins_rest_complete(t, p + 1, acc.push(cs[0]), cs.drop_first());
            assert(acc.push(cs[0]) + cs.drop_first() =~= acc + cs);
        }
    }
}


// --- statements ---

/// The optional select clauses as named segments.
pub open spec fn jseg(js: Seq<JoinV>) -> Seq<Token> {
    if js.len() == 0 {
        Seq::empty()
    } else {
        seq![Token::Punct(Punct::LBrace)] + crate::emit::joins_body(js)
    }
}

pub open spec fn gseg(cs: Seq<String>) -> Seq<Token> {
    if cs.len() == 0 {
        Seq::empty()
    } else {
        seq![
            Token::Kw(Keyword::Group),
            Token::Kw(Keyword::By),
            Token::Punct(Punct::LBrace),
        ] + crate::emit::idents_body(cs)
    }
}

pub open spec fn oseg(cs: Seq<(String, Ordering)>) -> Seq<Token> {
    if cs.len() == 0 {
        Seq::empty()
    } else {
        seq![
            Token::Kw(Keyword::Order),
            Token::Kw(Keyword::By),
            Token::Punct(Punct::LBrace),
        ] + crate::emit::orders_body(cs)
    }
}

pub open spec fn lseg(n: Option<u128>) -> Seq<Token> {
    match n {
        Some(k) => seq![Token::Kw(Keyword::Limit), Token::IntLit(k)],
        None => Seq::empty(),
    }
}

pub open spec fn ofseg(n: Option<u128>) -> Seq<Token> {
    match n {
        Some(k) => seq![Token::Kw(Keyword::Offset), Token::IntLit(k)],
        None => Seq::empty(),
    }
}

pub open spec fn lockseg(l: Option<crate::ast::ForLock>) -> Seq<Token> {
    match l {
        Some(k) => seq![Token::Kw(Keyword::For)] + crate::emit::tokens_of_lock(k),
        None => Seq::empty(),
    }
}

/// A returning clause and the end of the statement, starting at `p`.
pub proof fn lemma_returning_end(t: Seq<Token>, p: int, cs: Seq<Column>)
    requires
        seg_at(t, p, crate::emit::returning_part(cs)),
        p + crate::emit::returning_part(cs).len() == t.len(),
    ensures
        crate::grammar::spec_parse_returning(t, p) == Ok::<(Seq<Column>, int), ParseError>(
            (cs, t.len() as int),
        ),
        crate::grammar::spec_parse_semicolon(t, t.len() as int) == t.len(),
{
    let r = crate::emit::returning_part(cs);
    if cs.len() == 0 {
        assert(cs =~= Seq::<Column>::empty());
    } else {
        let head = seq![Token::Kw(Keyword::Returning), Token::Punct(Punct::LBrace)];
        assert(r =~= head + crate::emit::columns_body(cs));
        lemma_seg_split(t, p, head, crate::emit::columns_body(cs));
        lemma_seg_tok(t, p, head, 0);
        lemma_seg_tok(t, p, head, 1);
        lemma_columns_rest_complete(t, p + 2, Seq::empty(), cs);
        assert(Seq::<Column>::empty() + cs =~= cs);
    }
}

/// The where-clause segment starting at `p`, followed by tokens on which a
/// node parse stops.
pub proof fn lemma_where_clause_complete(t: Seq<Token>, p: int, o: Option<WhereV>)
    requires
        opt_where_wf(o),
        seg_at(t, p, crate::emit::where_part(o)),
        o is Some ==> where_follow(t, p + crate::emit::where_part(o).len(), o->0),
        o is None ==> (p == t.len() || t[p] != Token::Kw(Keyword::Where)),
    ensures
        spec_parse_where_clause(t, p) == Ok::<(Option<WhereV>, int), ParseError>(
            (o, p + crate::emit::where_part(o).len()),
        ),
{
    match o {
        Some(w) => {
            let wp = crate::emit::where_part(o);
            assert(wp =~= seq![Token::Kw(Keyword::Where)] + crate::emit::tokens_of_where(w));
            lemma_seg_split(t, p, seq![Token::Kw(Keyword::Where)], crate::emit::tokens_of_where(
                w,
            ));
            lemma_seg_tok(t, p, wp, 0);
            lemma_where_complete(t, p + 1, w);
        },
        None => {},
    }
}

#[verifier::rlimit(100)]
pub proof fn lemma_delete_complete(q: QueryV)
    requires
        query_wf(q),
        q matches QueryV::Delete { .. },
    ensures
        spec_parse_statement(crate::emit::tokens_of_query(q)) == Ok::<QueryV, ParseError>(q),
{
    let t = crate::emit::tokens_of_query(q);
    match q {
        QueryV::Delete { table, where_clause, returning } => {
            let a = seq![
                Token::Kw(Keyword::Delete),
                Token::Kw(Keyword::From),
                Token::Ident(table),
            ];
            let w = crate::emit::where_part(where_clause);
            let r = crate::emit::returning_part(returning);
            assert(t.subrange(0, t.len() as int) =~= t);
            assert(seg_at(t, 0, (a + w) + r));
            lemma_seg_split(t, 0, a + w, r);
            lemma_seg_split(t, 0, a, w);
            lemma_seg_tok(t, 0, a, 0);
            lemma_seg_tok(t, 0, a, 1);
            lemma_seg_tok(t, 0, a, 2);
            let p2: int = 3 + w.len() as int;
            lemma_where_returning_end(t, 3, where_clause, returning);
            assert(crate::grammar::spec_parse_ident(t, 2) == Ok::<(String, int), ParseError>(
                (table, 3),
            ));
            assert(spec_parse_where_clause(t, 3) == Ok::<(Option<WhereV>, int), ParseError>(
                (where_clause, p2),
            ));
            assert(crate::grammar::spec_parse_delete(t, 1) == Ok::<(QueryV, int), ParseError>(
                (q, t.len() as int),
            ));
        },
        _ => {},
    }
}

#[verifier::rlimit(100)]
pub proof fn lemma_insert_complete(q: QueryV)
    requires
        query_wf(q),
        q matches QueryV::Insert { .. },
    ensures
        spec_parse_statement(crate::emit::tokens_of_query(q)) == Ok::<QueryV, ParseError>(q),
{
    let t = crate::emit::tokens_of_query(q);
    match q {
        QueryV::Insert { columns, table, returning } => {
            let a = seq![Token::Kw(Keyword::Insert), Token::Punct(Punct::LBrace)];
            let b = crate::emit::assigns_body(columns);
            let c = seq![Token::Kw(Keyword::Into), Token::Ident(table)];
            let r = crate::emit::returning_part(returning);
            assert(t.subrange(0, t.len() as int) =~= t);
            assert(seg_at(t, 0, ((a + b) + c) + r));
            lemma_seg_split(t, 0, (a + b) + c, r);
            lemma_seg_split(t, 0, a + b, c);
            lemma_seg_split(t, 0, a, b);
            lemma_seg_tok(t, 0, a, 0);
            lemma_seg_tok(t, 0, a, 1);
            lemma_assigns_rest_complete(t, 2, Seq::empty(), columns);
            assert(Seq::<(String, Seq<Token>)>::empty() + columns =~= columns);
            let p1: int = 2 + b.len() as int;
            lemma_seg_tok(t, p1, c, 0);
            lemma_seg_tok(t, p1, c, 1);
            let p2: int = p1 + 2;
            lemma_returning_end(t, p2, returning);
            assert(spec_assigns_rest(t, 2, Seq::empty()) == Ok::<
                (Seq<(String, Seq<Token>)>, int),
                ParseError,
            >((columns, p1)));
            assert(crate::grammar::spec_parse_ident(t, p1 + 1) == Ok::<
                (String, int),
                ParseError,
            >((table, p2)));
            assert(crate::grammar::spec_parse_insert(t, 1) == Ok::<(QueryV, int), ParseError>(
                (q, t.len() as int),
            ));
        },
        _ => {},
    }
}

/// An optional where clause, an optional returning clause, and the end of
/// the statement, starting at `p`. Also says what can stand at `p` itself.
#[verifier::rlimit(100)]
pub proof fn lemma_where_returning_end(t: Seq<Token>, p: int, o: Option<WhereV>, cs: Seq<Column>)
    requires
        opt_where_wf(o),
        seg_at(t, p, crate::emit::where_part(o)),
        seg_at(t, p + crate::emit::where_part(o).len(), crate::emit::returning_part(cs)),
        p + crate::emit::where_part(o).len() + crate::emit::returning_part(cs).len() == t.len(),
    ensures
        spec_parse_where_clause(t, p) == Ok::<(Option<WhereV>, int), ParseError>(
            (o, p + crate::emit::where_part(o).len()),
        ),
        crate::grammar::spec_parse_returning(t, p + crate::emit::where_part(o).len()) == Ok::<
            (Seq<Column>, int),
            ParseError,
        >((cs, t.len() as int)),
        crate::grammar::spec_parse_semicolon(t, t.len() as int) == t.len(),
{
    let p2: int = p + crate::emit::where_part(o).len();
    let r = crate::emit::returning_part(cs);
    if cs.len() > 0 {
        lemma_seg_tok(t, p2, r, 0);
        assert(t[p2] == Token::Kw(Keyword::Returning));
    }
    lemma_where_clause_complete(t, p, o);
    lemma_returning_end(t, p2, cs);
}

/// Assembles an update parse from the results of its clause parses alone.
pub proof fn lemma_update_assemble(
    t: Seq<Token>,
    pos: int,
    q: QueryV,
    p1: int,
    p2: int,
    p3: int,
    p4: int,
)
    requires
        q matches QueryV::Update { columns, table, where_clause, returning } && {
            &&& crate::grammar::spec_parse_ident(t, pos) == Ok::<(String, int), ParseError>(
                (table, p1),
            )
            &&& peek_kw(t, p1, Keyword::SetKw)
            &&& peek_punct(t, p1 + 1, Punct::LBrace)
            &&& spec_assigns_rest(t, p1 + 2, Seq::empty()) == Ok::<
                (Seq<(String, Seq<Token>)>, int),
                ParseError,
            >((columns, p2))
            &&& spec_parse_where_clause(t, p2) == Ok::<(Option<WhereV>, int), ParseError>(
                (where_clause, p3),
            )
            &&& crate::grammar::spec_parse_returning(t, p3) == Ok::<
                (Seq<Column>, int),
                ParseError,
            >((returning, p4))
        },
    ensures
        crate::grammar::spec_parse_update(t, pos) == Ok::<(QueryV, int), ParseError>(
            (q, crate::grammar::spec_parse_semicolon(t, p4)),
        ),
{
    // follows by unfolding the update clause chain on the given results
}

#[verifier::rlimit(100)]
pub proof fn lemma_update_complete(q: QueryV)
    requires
        query_wf(q),
        q matches QueryV::Update { .. },
    ensures
        spec_parse_statement(crate::emit::tokens_of_query(q)) == Ok::<QueryV, ParseError>(q),
{
    let t = crate::emit::tokens_of_query(q);
    match q {
        QueryV::Update { columns, table, where_clause, returning } => {
            let a = seq![
                Token::Kw(Keyword::Update),
                Token::Ident(table),
                Token::Kw(Keyword::SetKw),
                Token::Punct(Punct::LBrace),
            ];
            let b = crate::emit::assigns_body(columns);
            let w = crate::emit::where_part(where_clause);
            let r = crate::emit::returning_part(returning);
            assert(t.subrange(0, t.len() as int) =~= t);
            assert(seg_at(t, 0, ((a + b) + w) + r));
            lemma_seg_split(t, 0, (a + b) + w, r);
            lemma_seg_split(t, 0, a + b, w);
            lemma_seg_split(t, 0, a, b);
            lemma_seg_tok(t, 0, a, 0);
            lemma_seg_tok(t, 0, a, 1);
            lemma_seg_tok(t, 0, a, 2);
            lemma_seg_tok(t, 0, a, 3);
            lemma_assigns_rest_complete(t, 4, Seq::empty(), columns);
            assert(Seq::<(String, Seq<Token>)>::empty() + columns =~= columns);
            let p2: int = 4 + b.len() as int;
            let p3: int = p2 + w.len() as int;
            lemma_where_returning_end(t, p2, where_clause, returning);
            assert(crate::grammar::spec_parse_ident(t, 1) == Ok::<(String, int), ParseError>(
                (table, 2),
            ));
            assert(spec_assigns_rest(t, 4, Seq::empty()) == Ok::<
                (Seq<(String, Seq<Token>)>, int),
                ParseError,
            >((columns, p2)));
            lemma_update_assemble(t, 1, q, 2, p2, p3, t.len() as int);
            assert(crate::grammar::spec_parse_semicolon(t, t.len() as int) == t.len());
        },
        _ => {},
    }
}

/// The clauses of a select statement after its where clause, running to the
/// end of the stream. Also says what can stand at the starting position.
#[verifier::rlimit(100)]
pub proof fn lemma_select_tail(
    t: Seq<Token>,
    p4: int,
    group_by: Seq<String>,
    order_by: Seq<(String, Ordering)>,
    limit: Option<u128>,
    offset: Option<u128>,
    lock: Option<crate::ast::ForLock>,
)
    requires
        seg_at(t, p4, gseg(group_by)),
        seg_at(t, p4 + gseg(group_by).len(), oseg(order_by)),
        seg_at(t, p4 + gseg(group_by).len() + oseg(order_by).len(), lseg(limit)),
        seg_at(
            t,
            p4 + gseg(group_by).len() + oseg(order_by).len() + lseg(limit).len(),
            ofseg(offset),
        ),
        seg_at(
            t,
            p4 + gseg(group_by).len() + oseg(order_by).len() + lseg(limit).len() + ofseg(
                offset,
            ).len(),
            lockseg(lock),
        ),
        p4 + gseg(group_by).len() + oseg(order_by).len() + lseg(limit).len() + ofseg(offset).len()
            + lockseg(lock).len() == t.len(),
    ensures
        ({
            let p5 = p4 + gseg(group_by).len();
            let p6 = p5 + oseg(order_by).len();
            let p7 = p6 + lseg(limit).len();
            let p8 = p7 + ofseg(offset).len();
            &&& crate::grammar::spec_parse_group_by_opt(t, p4) == Ok::<
                (Seq<String>, int),
                ParseError,
            >((group_by, p5))
            &&& crate::grammar::spec_parse_order_by_opt(t, p5) == Ok::<
                (Seq<(String, Ordering)>, int),
                ParseError,
            >((order_by, p6))
            &&& crate::grammar::spec_parse_limit_opt(t, p6) == Ok::<
                (Option<u128>, int),
                ParseError,
            >((limit, p7))
            &&& crate::grammar::spec_parse_offset_opt(t, p7) == Ok::<
                (Option<u128>, int),
                ParseError,
            >((offset, p8))
            &&& crate::grammar::spec_parse_lock_opt(t, p8) == Ok::<
                (Option<crate::ast::ForLock>, int),
                ParseError,
            >((lock, t.len() as int))
            &&& crate::grammar::spec_parse_semicolon(t, t.len() as int) == t.len()
        }),
        p4 == t.len() || t[p4] == Token::Kw(Keyword::Group) || t[p4] == Token::Kw(Keyword::Order)
            || t[p4] == Token::Kw(Keyword::Limit) || t[p4] == Token::Kw(Keyword::Offset) || t[p4]
            == Token::Kw(Keyword::For),
{
    let f = gseg(group_by);
    let g = oseg(order_by);
    let h = lseg(limit);
    let i = ofseg(offset);
    let j = lockseg(lock);
    let p5: int = p4 + f.len() as int;
    let p6: int = p5 + g.len() as int;
    let p7: int = p6 + h.len() as int;
    let p8: int = p7 + i.len() as int;
    if group_by.len() > 0 {
        lemma_seg_tok(t, p4, f, 0);
        lemma_seg_tok(t, p4, f, 1);
        lemma_seg_tok(t, p4, f, 2);
        assert(f =~= seq![
            Token::Kw(Keyword::Group),
            Token::Kw(Keyword::By),
            Token::Punct(Punct::LBrace),
        ] + crate::emit::idents_body(group_by));
        lemma_seg_split(t, p4, seq![
            Token::Kw(Keyword::Group),
            Token::Kw(Keyword::By),
            Token::Punct(Punct::LBrace),
        ], crate::emit::idents_body(group_by));
        lemma_idents_rest_complete(t, p4 + 3, Seq::empty(), group_by);
        assert(Seq::<String>::empty() + group_by =~= group_by);
    }
    if order_by.len() > 0 {
        lemma_seg_tok(t, p5, g, 0);
        lemma_seg_tok(t, p5, g, 1);
        lemma_seg_tok(t, p5, g, 2);
        assert(g =~= seq![
            Token::Kw(Keyword::Order),
            Token::Kw(Keyword::By),
            Token::Punct(Punct::LBrace),
        ] + crate::emit::orders_body(order_by));
        lemma_seg_split(t, p5, seq![
            Token::Kw(Keyword::Order),
            Token::Kw(Keyword::By),
            Token::Punct(Punct::LBrace),
        ], crate::emit::orders_body(order_by));
        lemma_orders_rest_complete(t, p5 + 3, Seq::empty(), order_by);
        assert(Seq::<(String, Ordering)>::empty() + order_by =~= order_by);
    }
    if limit is Some {
        lemma_seg_tok(t, p6, h, 0);
        lemma_seg_tok(t, p6, h, 1);
    }
    if offset is Some {
        lemma_seg_tok(t, p7, i, 0);
        lemma_seg_tok(t, p7, i, 1);
    }
    if lock is Some {
        lemma_seg_tok(t, p8, j, 0);
        lemma_seg_tok(t, p8, j, 1);
    }
    if group_by.len() == 0 {
        assert(group_by =~= Seq::<String>::empty());
        assert(!peek_kw(t, p4, Keyword::Group)) by {
            if order_by.len() > 0 {
            } else if limit is Some {
            } else if offset is Some {
            } else if lock is Some {
            } else {
                assert(p4 == t.len() as int);
            }
        }
    }
    assert(crate::grammar::spec_parse_group_by_opt(t, p4) == Ok::<
        (Seq<String>, int),
        ParseError,
    >((group_by, p5)));
    if order_by.len() == 0 {
        assert(order_by =~= Seq::<(String, Ordering)>::empty());
        assert(!peek_kw(t, p5, Keyword::Order)) by {
            if limit is Some {
            } else if offset is Some {
            } else if lock is Some {
            } else {
                assert(p5 == t.len() as int);
            }
        }
    }
    assert(crate::grammar::spec_parse_order_by_opt(t, p5) == Ok::<
        (Seq<(String, Ordering)>, int),
        ParseError,
    >((order_by, p6)));
    if limit is None {
        assert(!peek_kw(t, p6, Keyword::Limit)) by {
            if offset is Some {
            } else if lock is Some {
            } else {
                assert(p6 == t.len() as int);
            }
        }
    }
    assert(crate::grammar::spec_parse_limit_opt(t, p6) == Ok::<
        (Option<u128>, int),
        ParseError,
    >((limit, p7)));
    if offset is None {
        assert(!peek_kw(t, p7, Keyword::Offset)) by {
            if lock is Some {
            } else {
                assert(p7 == t.len() as int);
            }
        }
    }
    assert(crate::grammar::spec_parse_offset_opt(t, p7) == Ok::<
        (Option<u128>, int),
        ParseError,
    >((offset, p8)));
}

/// Carves the canonical form of a select statement into its clause
/// segments.
#[verifier::rlimit(100)]
pub proof fn lemma_select_segments(
    columns: Seq<Column>,
    table: String,
    where_clause: Option<WhereV>,
    group_by: Seq<String>,
    order_by: Seq<(String, Ordering)>,
    limit: Option<u128>,
    offset: Option<u128>,
    joins: Seq<JoinV>,
    lock: Option<crate::ast::ForLock>,
)
    ensures
        ({
            let t = crate::emit::tokens_of_query(
                QueryV::Select {
                    columns,
                    table,
                    where_clause,
                    group_by,
                    order_by,
                    limit,
                    offset,
                    joins,
                    lock,
                },
            );
            let b = crate::emit::columns_body(columns);
            let p1 = 2 + b.len() as int;
            let p2 = p1 + 2;
            let p3 = p2 + jseg(joins).len() as int;
            let p4 = p3 + crate::emit::where_part(where_clause).len() as int;
            let p5 = p4 + gseg(group_by).len() as int;
            let p6 = p5 + oseg(order_by).len() as int;
            let p7 = p6 + lseg(limit).len() as int;
            let p8 = p7 + ofseg(offset).len() as int;
            let p9 = p8 + lockseg(lock).len() as int;
            &&& seg_at(t, 0, seq![Token::Kw(Keyword::Select), Token::Punct(Punct::LBrace)])
            &&& seg_at(t, 2, b)
            &&& seg_at(t, p1, seq![Token::Kw(Keyword::From), Token::Ident(table)])
            &&& seg_at(t, p2, jseg(joins))
            &&& seg_at(t, p3, crate::emit::where_part(where_clause))
            &&& seg_at(t, p4, gseg(group_by))
            &&& seg_at(t, p5, oseg(order_by))
            &&& seg_at(t, p6, lseg(limit))
            &&& seg_at(t, p7, ofseg(offset))
            &&& seg_at(t, p8, lockseg(lock))
            &&& p9 == t.len()
        }),
{
    let t = crate::emit::tokens_of_query(
        QueryV::Select {
            columns,
            table,
            where_clause,
            group_by,
            order_by,
            limit,
            offset,
            joins,
            lock,
        },
    );
    let a = seq![Token::Kw(Keyword::Select), Token::Punct(Punct::LBrace)];
    let b = crate::emit::columns_body(columns);
    let c = seq![Token::Kw(Keyword::From), Token::Ident(table)];
    let d = jseg(joins);
    let e = crate::emit::where_part(where_clause);
    let f = gseg(group_by);
    let g = oseg(order_by);
    let h = lseg(limit);
    let i = ofseg(offset);
    let j = lockseg(lock);
    assert(t.subrange(0, t.len() as int) =~= t);
    assert(seg_at(t, 0, ((((((((a + b) + c) + d) + e) + f) + g) + h) + i) + j));
    lemma_seg_split(t, 0, (((((((a + b) + c) + d) + e) + f) + g) + h) + i, j);
    lemma_seg_split(t, 0, ((((((a + b) + c) + d) + e) + f) + g) + h, i);
    lemma_seg_split(t, 0, (((((a + b) + c) + d) + e) + f) + g, h);
    lemma_seg_split(t, 0, ((((a + b) + c) + d) + e) + f, g);
    lemma_seg_split(t, 0, (((a + b) + c) + d) + e, f);
    lemma_seg_split(t, 0, ((a + b) + c) + d, e);
    lemma_seg_split(t, 0, (a + b) + c, d);
    lemma_seg_split(t, 0, a + b, c);
    lemma_seg_split(t, 0, a, b);
}

/// The clauses of a select statement up to and including its where clause.
#[verifier::rlimit(100)]
pub proof fn lemma_select_head(
    t: Seq<Token>,
    columns: Seq<Column>,
    table: String,
    joins: Seq<JoinV>,
    where_clause: Option<WhereV>,
)
    requires
        joins_wf(joins),
        opt_where_wf(where_clause),
        seg_at(t, 0, seq![Token::Kw(Keyword::Select), Token::Punct(Punct::LBrace)]),
        seg_at(t, 2, crate::emit::columns_body(columns)),
        seg_at(
            t,
            2 + crate::emit::columns_body(columns).len() as int,
            seq![Token::Kw(Keyword::From), Token::Ident(table)],
        ),
        seg_at(t, 4 + crate::emit::columns_body(columns).len() as int, jseg(joins)),
        seg_at(
            t,
            4 + crate::emit::columns_body(columns).len() as int + jseg(joins).len() as int,
            crate::emit::where_part(where_clause),
        ),
        ({
            let p4 = 4 + crate::emit::columns_body(columns).len() as int + jseg(
                joins,
            ).len() as int + crate::emit::where_part(where_clause).len() as int;
            p4 == t.len() || t[p4] == Token::Kw(Keyword::Group) || t[p4] == Token::Kw(
                Keyword::Order,
            ) || t[p4] == Token::Kw(Keyword::Limit) || t[p4] == Token::Kw(Keyword::Offset) || t[p4]
                == Token::Kw(Keyword::For)
        }),
    ensures
        ({
            let p1 = 2 + crate::emit::columns_body(columns).len() as int;
            let p2 = p1 + 2;
            let p3 = p2 + jseg(joins).len() as int;
            let p4 = p3 + crate::emit::where_part(where_clause).len() as int;
            &&& crate::grammar::spec_parse_column_list(t, 1) == Ok::<
                (Seq<Column>, int),
                ParseError,
            >((columns, p1))
            &&& peek_kw(t, p1, Keyword::From)
            &&& crate::grammar::spec_parse_ident(t, p1 + 1) == Ok::<(String, int), ParseError>(
                (table, p2),
            )
            &&& crate::grammar::spec_parse_joins_opt(t, p2) == Ok::<
                (Seq<JoinV>, int),
                ParseError,
            >((joins, p3))
            &&& spec_parse_where_clause(t, p3) == Ok::<(Option<WhereV>, int), ParseError>(
                (where_clause, p4),
            )
        }),
{
    let a = seq![Token::Kw(Keyword::Select), Token::Punct(Punct::LBrace)];
    let b = crate::emit::columns_body(columns);
    let c = seq![Token::Kw(Keyword::From), Token::Ident(table)];
    let d = jseg(joins);
    let e = crate::emit::where_part(where_clause);
    let p1: int = 2 + b.len() as int;
    let p2: int = p1 + 2;
    let p3: int = p2 + d.len() as int;
    let p4: int = p3 + e.len() as int;
    lemma_seg_tok(t, 0, a, 1);
    lemma_columns_rest_complete(t, 2, Seq::empty(), columns);
    assert(Seq::<Column>::empty() + columns =~= columns);
    lemma_seg_tok(t, p1, c, 0);
    lemma_seg_tok(t, p1, c, 1);
    if joins.len() == 0 {
        assert(p2 == p3);
        assert(joins =~= Seq::<JoinV>::empty());
        if where_clause is Some {
            lemma_seg_tok(t, p3, e, 0);
        }
    } else {
        lemma_seg_tok(t, p2, d, 0);
        assert(d =~= seq![Token::Punct(Punct::LBrace)] + crate::emit::joins_body(joins));
        lemma_seg_split(t, p2, seq![Token::Punct(Punct::LBrace)], crate::emit::joins_body(
            joins,
        ));
        lemma_joins_rest_complete(t, p2 + 1, Seq::empty(), joins);
        assert(Seq::<JoinV>::empty() + joins =~= joins);
    }
    assert(crate::grammar::spec_parse_joins_opt(t, p2) == Ok::<(Seq<JoinV>, int), ParseError>(
        (joins, p3),
    ));
    if where_clause is Some {
        lemma_seg_tok(t, p3, e, 0);
    }
    lemma_where_clause_complete(t, p3, where_clause);
}

/// Assembles a select parse from the results of its clause parses alone.
pub proof fn lemma_select_assemble(
    t: Seq<Token>,
    pos: int,
    q: QueryV,
    p1: int,
    p2: int,
    p3: int,
    p4: int,
    p5: int,
    p6: int,
    p7: int,
    p8: int,
    p9: int,
)
    requires
        q matches QueryV::Select {
            columns,
            table,
            where_clause,
            group_by,
            order_by,
            limit,
            offset,
            joins,
            lock,
        } && {
            &&& crate::grammar::spec_parse_column_list(t, pos) == Ok::<
                (Seq<Column>, int),
                ParseError,
            >((columns, p1))
            &&& peek_kw(t, p1, Keyword::From)
            &&& crate::grammar::spec_parse_ident(t, p1 + 1) == Ok::<(String, int), ParseError>(
                (table, p2),
            )
            &&& crate::grammar::spec_parse_joins_opt(t, p2) == Ok::<
                (Seq<JoinV>, int),
                ParseError,
            >((joins, p3))
            &&& spec_parse_where_clause(t, p3) == Ok::<(Option<WhereV>, int), ParseError>(
                (where_clause, p4),
            )
            &&& crate::grammar::spec_parse_group_by_opt(t, p4) == Ok::<
                (Seq<String>, int),
                ParseError,
            >((group_by, p5))
            &&& crate::grammar::spec_parse_order_by_opt(t, p5) == Ok::<
                (Seq<(String, Ordering)>, int),
                ParseError,
            >((order_by, p6))
            &&& crate::grammar::spec_parse_limit_opt(t, p6) == Ok::<
                (Option<u128>, int),
                ParseError,
            >((limit, p7))
            &&& crate::grammar::spec_parse_offset_opt(t, p7) == Ok::<
                (Option<u128>, int),
                ParseError,
            >((offset, p8))
            &&& crate::grammar::spec_parse_lock_opt(t, p8) == Ok::<
                (Option<crate::ast::ForLock>, int),
                ParseError,
            >((lock, p9))
        },
    ensures
        crate::grammar::spec_parse_select(t, pos) == Ok::<(QueryV, int), ParseError>(
            (q, crate::grammar::spec_parse_semicolon(t, p9)),
        ),
{
    // follows by unfolding the select clause chain on the given results
}

#[verifier::rlimit(100)]
pub proof fn lemma_select_complete(q: QueryV)
    requires
        query_wf(q),
        q matches QueryV::Select { .. },
    ensures
        spec_parse_statement(crate::emit::tokens_of_query(q)) == Ok::<QueryV, ParseError>(q),
{
    let t = crate::emit::tokens_of_query(q);
    match q {
        QueryV::Select {
            columns,
            table,
            where_clause,
            group_by,
            order_by,
            limit,
            offset,
            joins,
            lock,
        } => {
            let b = crate::emit::columns_body(columns);
            let p1: int = 2 + b.len() as int;
            let p2: int = p1 + 2;
            let p3: int = p2 + jseg(joins).len() as int;
            let p4: int = p3 + crate::emit::where_part(where_clause).len() as int;
            let p5: int = p4 + gseg(group_by).len() as int;
            let p6: int = p5 + oseg(order_by).len() as int;
            let p7: int = p6 + lseg(limit).len() as int;
            let p8: int = p7 + ofseg(offset).len() as int;
            lemma_select_segments(
                columns,
                table,
                where_clause,
                group_by,
                order_by,
                limit,
                offset,
                joins,
                lock,
            );
            lemma_select_tail(t, p4, group_by, order_by, limit, offset, lock);
            lemma_select_head(t, columns, table, joins, where_clause);
            lemma_select_assemble(
                t,
                1,
                q,
                p1,
                p2,
                p3,
                p4,
                p5,
                p6,
                p7,
                p8,
                t.len() as int,
            );
            lemma_seg_tok(t, 0, seq![
                Token::Kw(Keyword::Select),
                Token::Punct(Punct::LBrace),
            ], 0);
            assert(crate::grammar::spec_parse_semicolon(t, t.len() as int) == t.len());
        },
        _ => {},
    }
}

/// Completeness: a well-formed tree's canonical token form parses back to
/// exactly that tree, consuming the whole stream.
pub proof fn lemma_query_complete(q: QueryV)
    requires
        query_wf(q),
    ensures
        spec_parse_statement(crate::emit::tokens_of_query(q)) == Ok::<QueryV, ParseError>(q),
{
    match q {
        QueryV::Select { .. } => lemma_select_complete(q),
        QueryV::Insert { .. } => lemma_insert_complete(q),
        QueryV::Update { .. } => lemma_update_complete(q),
        QueryV::Delete { .. } => lemma_delete_complete(q),
    }
}

/// Round-trip stability: parsing an input, re-serializing the resulting
/// tree to canonical token form, and parsing again yields a structurally
/// equal tree. Structure is all that is compared: stored expressions are
/// opaque token runs and re-emitted verbatim.
pub proof fn lemma_round_trip(t: Seq<Token>, q: QueryV)
    requires
        spec_parse_statement(t) == Ok::<QueryV, ParseError>(q),
    ensures
        spec_parse_statement(crate::emit::tokens_of_query(q)) == Ok::<QueryV, ParseError>(q),
{
    lemma_query_sound(t, 0);
    lemma_query_complete(q);
}

} // verus!
