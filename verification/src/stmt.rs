use vstd::prelude::*;

use crate::ast::{
    joins_view, ForLock, Join, Ordering, Query,
};
use crate::error::{unexpected_at, Expected, ParseError};
use crate::grammar::{
    spec_parse_group_by_opt, spec_parse_joins_opt, spec_parse_limit_opt, spec_parse_lock_opt,
    spec_parse_offset_opt, spec_parse_order_by_opt, spec_parse_query, spec_parse_select,
    spec_parse_statement, spec_parse_delete, spec_parse_insert, spec_parse_update,
};
use crate::parser::{
    parse_assigns_rest, parse_column_list, parse_ident, parse_idents_rest, parse_int,
    parse_joins_rest, parse_orders_rest, parse_returning, parse_semicolon, parse_where,
    peek_is_kw, peek_is_punct,
};
use crate::token::{Keyword, Punct, Token};

verus! {

/// An optional join list, detected by an opening brace after the table.
pub fn parse_joins_opt(t: &Vec<Token>, pos: usize) -> (r: Result<(Vec<Join>, usize), ParseError>)
    requires
        pos <= t@.len(),
    ensures
        ({
            let s = spec_parse_joins_opt(t@, pos as int);
            match r {
                Ok((v, p)) => s == Ok::<_, ParseError>((joins_view(v@), p as int)) && pos <= p
                    <= t@.len(),
                Err(e) => s == Err::<(Seq<crate::ast::JoinV>, int), _>(e),
            }
        }),
{
    if peek_is_punct(t, pos, Punct::LBrace) {
        parse_joins_rest(t, pos + 1, Vec::new())
    } else {
        let v: Vec<Join> = Vec::new();
        Ok((v, pos))
    }
}

/// An optional `GROUP BY` clause, detected by two-token lookahead.
pub fn parse_group_by_opt(t: &Vec<Token>, pos: usize) -> (r: Result<
    (Vec<String>, usize),
    ParseError,
>)
    requires
        pos <= t@.len(),
    ensures
        ({
            let s = spec_parse_group_by_opt(t@, pos as int);
            match r {
                Ok((v, p)) => s == Ok::<_, ParseError>((v@, p as int)) && pos <= p <= t@.len(),
                Err(e) => s == Err::<(Seq<String>, int), _>(e),
            }
        }),
{
    if peek_is_kw(t, pos, Keyword::Group) && peek_is_kw(t, pos + 1, Keyword::By) {
        if peek_is_punct(t, pos + 2, Punct::LBrace) {
            parse_idents_rest(t, pos + 3, Vec::new())
        } else {
            Err(unexpected_at(t, pos + 2, Expected::Punct(Punct::LBrace)))
        }
    } else {
        let v: Vec<String> = Vec::new();
        Ok((v, pos))
    }
}

/// An optional `ORDER BY` clause, detected by two-token lookahead.
pub fn parse_order_by_opt(t: &Vec<Token>, pos: usize) -> (r: Result<
    (Vec<(String, Ordering)>, usize),
    ParseError,
>)
    requires
        pos <= t@.len(),
    ensures
        ({
            let s = spec_parse_order_by_opt(t@, pos as int);
            match r {
                Ok((v, p)) => s == Ok::<_, ParseError>((v@, p as int)) && pos <= p <= t@.len(),
                Err(e) => s == Err::<(Seq<(String, Ordering)>, int), _>(e),
            }
        }),
{
    if peek_is_kw(t, pos, Keyword::Order) && peek_is_kw(t, pos + 1, Keyword::By) {
        if peek_is_punct(t, pos + 2, Punct::LBrace) {
            parse_orders_rest(t, pos + 3, Vec::new())
        } else {
            Err(unexpected_at(t, pos + 2, Expected::Punct(Punct::LBrace)))
        }
    } else {
        let v: Vec<(String, Ordering)> = Vec::new();
        Ok((v, pos))
    }
}

/// An optional `LIMIT` clause.
pub fn parse_limit_opt(t: &Vec<Token>, pos: usize) -> (r: Result<
    (Option<u128>, usize),
    ParseError,
>)
    requires
        pos <= t@.len(),
    ensures
        ({
            let s = spec_parse_limit_opt(t@, pos as int);
            match r {
                Ok((v, p)) => s == Ok::<_, ParseError>((v, p as int)) && pos <= p <= t@.len(),
                Err(e) => s == Err::<(Option<u128>, int), _>(e),
            }
        }),
{
    if peek_is_kw(t, pos, Keyword::Limit) {
        match parse_int(t, pos + 1) {
            Err(e) => Err(e),
            Ok((n, p)) => Ok((Some(n), p)),
        }
    } else {
        Ok((None, pos))
    }
}

/// An optional `OFFSET` clause.
pub fn parse_offset_opt(t: &Vec<Token>, pos: usize) -> (r: Result<
    (Option<u128>, usize),
    ParseError,
>)
    requires
        pos <= t@.len(),
    ensures
        ({
            let s = spec_parse_offset_opt(t@, pos as int);
            match r {
                Ok((v, p)) => s == Ok::<_, ParseError>((v, p as int)) && pos <= p <= t@.len(),
                Err(e) => s == Err::<(Option<u128>, int), _>(e),
            }
        }),
{
    if peek_is_kw(t, pos, Keyword::Offset) {
        match parse_int(t, pos + 1) {
            Err(e) => Err(e),
            Ok((n, p)) => Ok((Some(n), p)),
        }
    } else {
        Ok((None, pos))
    }
}

/// An optional `FOR` lock clause.
pub fn parse_lock_opt(t: &Vec<Token>, pos: usize) -> (r: Result<
    (Option<ForLock>, usize),
    ParseError,
>)
    requires
        pos <= t@.len(),
    ensures
        ({
            let s = spec_parse_lock_opt(t@, pos as int);
            match r {
                Ok((v, p)) => s == Ok::<_, ParseError>((v, p as int)) && pos <= p <= t@.len(),
                Err(e) => s == Err::<(Option<ForLock>, int), _>(e),
            }
        }),
{
    if peek_is_kw(t, pos, Keyword::For) {
        match ForLock::parse(t, pos + 1) {
            Err(e) => Err(e),
            Ok((l, p)) => Ok((Some(l), p)),
        }
    } else {
        Ok((None, pos))
    }
}

impl Query {
    /// A select statement, after its leading keyword.
    #[verifier::rlimit(50)]
    pub fn parse_select(t: &Vec<Token>, pos: usize) -> (r: Result<(Query, usize), ParseError>)
        ensures
            ({
                let s = spec_parse_select(t@, pos as int);
                match r {
                    Ok((q, p)) => s == Ok::<_, ParseError>((q@, p as int)) && pos <= p <= t@.len(),
                    Err(e) => s == Err::<(crate::ast::QueryV, int), _>(e),
                }
            }),
    {
        let (columns, p1) = parse_column_list(t, pos)?;
        if !peek_is_kw(t, p1, Keyword::From) {
            return Err(unexpected_at(t, p1, Expected::Keyword(Keyword::From)));
        }
        let (table, p2) = parse_ident(t, p1 + 1)?;
        let (joins, p3) = parse_joins_opt(t, p2)?;
        let (where_clause, p4) = parse_where(t, p3)?;
        let (group_by, p5) = parse_group_by_opt(t, p4)?;
        let (order_by, p6) = parse_order_by_opt(t, p5)?;
        let (limit, p7) = parse_limit_opt(t, p6)?;
        let (offset, p8) = parse_offset_opt(t, p7)?;
        let (lock, p9) = parse_lock_opt(t, p8)?;
        let p10 = parse_semicolon(t, p9);
        Ok(
            (
                Query::Select {
                    columns,
                    table,
                    where_clause,
                    group_by,
                    order_by,
                    limit,
                    offset,
                    joins,
                    lock,
                },
                p10,
            ),
        )
    }

    /// An insert statement, after its leading keyword: assignments first,
    /// then `INTO` and the table, then an optional returning list.
    pub fn parse_insert(t: &Vec<Token>, pos: usize) -> (r: Result<(Query, usize), ParseError>)
        ensures
            ({
                let s = spec_parse_insert(t@, pos as int);
                match r {
                    Ok((q, p)) => s == Ok::<_, ParseError>((q@, p as int)) && pos <= p <= t@.len(),
                    Err(e) => s == Err::<(crate::ast::QueryV, int), _>(e),
                }
            }),
    {
        if !peek_is_punct(t, pos, Punct::LBrace) {
            return Err(unexpected_at(t, pos, Expected::Punct(Punct::LBrace)));
        }
        let (columns, p1) = parse_assigns_rest(t, pos + 1, Vec::new())?;
        if !peek_is_kw(t, p1, Keyword::Into) {
            return Err(unexpected_at(t, p1, Expected::Keyword(Keyword::Into)));
        }
        let (table, p2) = parse_ident(t, p1 + 1)?;
        let (returning, p3) = parse_returning(t, p2)?;
        let p4 = parse_semicolon(t, p3);
        Ok((Query::Insert { columns, table, returning }, p4))
    }

    /// An update statement, after its leading keyword.
    pub fn parse_update(t: &Vec<Token>, pos: usize) -> (r: Result<(Query, usize), ParseError>)
        ensures
            ({
                let s = spec_parse_update(t@, pos as int);
                match r {
                    Ok((q, p)) => s == Ok::<_, ParseError>((q@, p as int)) && pos <= p <= t@.len(),
                    Err(e) => s == Err::<(crate::ast::QueryV, int), _>(e),
                }
            }),
    {
        let (table, p1) = parse_ident(t, pos)?;
        if !peek_is_kw(t, p1, Keyword::SetKw) {
            return Err(unexpected_at(t, p1, Expected::Keyword(Keyword::SetKw)));
        }
        if !peek_is_punct(t, p1 + 1, Punct::LBrace) {
            return Err(unexpected_at(t, p1 + 1, Expected::Punct(Punct::LBrace)));
        }
        let (columns, p2) = parse_assigns_rest(t, p1 + 2, Vec::new())?;
        let (where_clause, p3) = parse_where(t, p2)?;
        let (returning, p4) = parse_returning(t, p3)?;
        let p5 = parse_semicolon(t, p4);
        Ok((Query::Update { columns, table, where_clause, returning }, p5))
    }

    /// A delete statement, after its leading keyword.
    pub fn parse_delete(t: &Vec<Token>, pos: usize) -> (r: Result<(Query, usize), ParseError>)
        ensures
            ({
                let s = spec_parse_delete(t@, pos as int);
                match r {
                    Ok((q, p)) => s == Ok::<_, ParseError>((q@, p as int)) && pos <= p <= t@.len(),
                    Err(e) => s == Err::<(crate::ast::QueryV, int), _>(e),
                }
            }),
    {
        if !peek_is_kw(t, pos, Keyword::From) {
            return Err(unexpected_at(t, pos, Expected::Keyword(Keyword::From)));
        }
        let (table, p1) = parse_ident(t, pos + 1)?;
        let (where_clause, p2) = parse_where(t, p1)?;
        let (returning, p3) = parse_returning(t, p2)?;
        let p4 = parse_semicolon(t, p3);
        Ok((Query::Delete { table, where_clause, returning }, p4))
    }

    /// The statement dispatcher: the leading keyword selects the statement
    /// parser; any other first token is rejected with an error naming the
    /// four statement keywords, and no partial tree is ever produced.
    pub fn parse(t: &Vec<Token>, pos: usize) -> (r: Result<(Query, usize), ParseError>)
        ensures
            ({
                let s = spec_parse_query(t@, pos as int);
                match r {
                    Ok((q, p)) => s == Ok::<_, ParseError>((q@, p as int)) && pos <= p <= t@.len(),
                    Err(e) => s == Err::<(crate::ast::QueryV, int), _>(e),
                }
            }),
    {
        if peek_is_kw(t, pos, Keyword::Select) {
            Query::parse_select(t, pos + 1)
        } else if peek_is_kw(t, pos, Keyword::Insert) {
            Query::parse_insert(t, pos + 1)
        } else if peek_is_kw(t, pos, Keyword::Update) {
            Query::parse_update(t, pos + 1)
        } else if peek_is_kw(t, pos, Keyword::Delete) {
            Query::parse_delete(t, pos + 1)
        } else {
            Err(unexpected_at(t, pos, Expected::Statement))
        }
    }
}

/// Parses one whole input: a single statement that must consume every token.
pub fn parse_tokens(t: &Vec<Token>) -> (r: Result<Query, ParseError>)
    ensures
        ({
            let s = spec_parse_statement(t@);
            match r {
                Ok(q) => s == Ok::<_, ParseError>(q@),
                Err(e) => s == Err::<crate::ast::QueryV, _>(e),
            }
        }),
{
    match Query::parse(t, 0) {
        Err(e) => Err(e),
        Ok((q, p)) => if p == t.len() {
            Ok(q)
        } else {
            Err(unexpected_at(t, p, Expected::EndOfInput))
        },
    }
}

} // verus!
