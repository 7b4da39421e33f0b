use vql::ast::{BoolOp, Column, ForLock, JoinType, Ordering, Query, Where, WhereOp};
use vql::error::{Expected, ParseError};
use vql::stmt::parse_tokens;
use vql::token::{Keyword, Punct, Token};

fn id(s: &str) -> Token {
    Token::Ident(s.to_string())
}

fn kw(k: Keyword) -> Token {
    Token::Kw(k)
}

fn p(x: Punct) -> Token {
    Token::Punct(x)
}

fn num(n: u128) -> Token {
    Token::IntLit(n)
}

fn named(s: &str) -> Column {
    Column::Named(s.to_string(), None)
}

/// `SELECT {a, b, c} FROM table`
fn basic_select_tokens() -> Vec<Token> {
    vec![
        kw(Keyword::Select),
        p(Punct::LBrace),
        id("a"),
        p(Punct::Comma),
        id("b"),
        p(Punct::Comma),
        id("c"),
        p(Punct::RBrace),
        kw(Keyword::From),
        id("table"),
    ]
}

/// `WHERE AND: {a == 1, OR: {b NOT LIKE 2, c LIKE 3 if d == 4}}`
fn where_clause_tokens() -> Vec<Token> {
    vec![
        kw(Keyword::Where),
        kw(Keyword::And),
        p(Punct::Colon),
        p(Punct::LBrace),
        id("a"),
        p(Punct::EqEq),
        num(1),
        p(Punct::Comma),
        kw(Keyword::Or),
        p(Punct::Colon),
        p(Punct::LBrace),
        id("b"),
        kw(Keyword::Not),
        kw(Keyword::Like),
        num(2),
        p(Punct::Comma),
        id("c"),
        kw(Keyword::Like),
        num(3),
        kw(Keyword::If),
        id("d"),
        p(Punct::EqEq),
        num(4),
        p(Punct::RBrace),
        p(Punct::RBrace),
    ]
}

#[test]
fn test_basic_select() {
    let query = parse_tokens(&basic_select_tokens()).unwrap();
    if let Query::Select {
        columns,
        table,
        where_clause,
        ..
    } = &query
    {
        println!("{:?}", &query);
        assert_eq!(columns.len(), 3);
        assert!(columns[0].is_named(&"a".to_string()));
        assert!(columns[1].is_named(&"b".to_string()));
        assert!(columns[2].is_named(&"c".to_string()));
        assert_eq!(table, "table");
        assert!(where_clause.is_none());
    } else {
        panic!("expected select query");
    }
}

#[test]
fn test_select_defaults_empty() {
    // every optional field of a bare select sits at its empty/absent default
    let query = parse_tokens(&basic_select_tokens()).unwrap();
    if let Query::Select {
        columns,
        where_clause,
        group_by,
        order_by,
        limit,
        offset,
        joins,
        lock,
        ..
    } = &query
    {
        assert_eq!(columns, &vec![named("a"), named("b"), named("c")]);
        assert!(where_clause.is_none());
        assert!(group_by.is_empty());
        assert!(order_by.is_empty());
        assert!(limit.is_none());
        assert!(offset.is_none());
        assert!(joins.is_empty());
        assert!(lock.is_none());
    } else {
        panic!("expected select query");
    }
}

#[test]
fn test_select_with_where() {
    let mut toks = basic_select_tokens();
    toks.extend(where_clause_tokens());
    let query = parse_tokens(&toks).unwrap();
    if let Query::Select {
        columns,
        table,
        where_clause,
        ..
    } = &query
    {
        println!("{:?}", &query);
        assert_eq!(columns.len(), 3);
        assert!(columns[0].is_named(&"a".to_string()));
        assert!(columns[1].is_named(&"b".to_string()));
        assert!(columns[2].is_named(&"c".to_string()));
        assert_eq!(table, "table");
        assert!(where_clause.is_some());
    } else {
        panic!("expected select query");
    }
}

#[test]
fn test_where_tree_structure() {
    // the tree of `AND: {a == 1, OR: {b NOT LIKE 2, c LIKE 3 if d == 4}}`
    let mut toks = basic_select_tokens();
    toks.extend(where_clause_tokens());
    let query = parse_tokens(&toks).unwrap();
    let where_clause = match query {
        Query::Select { where_clause, .. } => where_clause.unwrap(),
        _ => panic!("expected select query"),
    };
    let group = match where_clause {
        Where::BoolWhere(g) => g,
        _ => panic!("expected a group at the root"),
    };
    assert_eq!(group.op, BoolOp::And);
    assert_eq!(group.conditions.len(), 2);

    // first child: leaf `a == 1`, no guard anywhere
    assert!(group.conditions[0].condition.is_none());
    match &group.conditions[0].value {
        Where::Column(leaf) => {
            assert_eq!(leaf.value.column, "a");
            assert_eq!(leaf.value.op, WhereOp::Eq);
            assert_eq!(leaf.value.value.tokens, vec![num(1)]);
            assert!(leaf.condition.is_none());
        }
        _ => panic!("expected a leaf"),
    }

    // second child: unguarded group `OR: {...}` of two children
    assert!(group.conditions[1].condition.is_none());
    let inner = match &group.conditions[1].value {
        Where::BoolWhere(g) => g,
        _ => panic!("expected a nested group"),
    };
    assert_eq!(inner.op, BoolOp::Or);
    assert_eq!(inner.conditions.len(), 2);
    match &inner.conditions[0].value {
        Where::Column(leaf) => {
            assert_eq!(leaf.value.column, "b");
            assert_eq!(leaf.value.op, WhereOp::NotLike);
            assert!(leaf.condition.is_none());
        }
        _ => panic!("expected a leaf"),
    }
    // the second leaf `c LIKE 3` carries the guard `d == 4`
    match &inner.conditions[1].value {
        Where::Column(leaf) => {
            assert_eq!(leaf.value.column, "c");
            assert_eq!(leaf.value.op, WhereOp::Like);
            assert_eq!(leaf.value.value.tokens, vec![num(3)]);
            let guard = leaf.condition.as_ref().unwrap();
            assert_eq!(guard.tokens, vec![id("d"), p(Punct::EqEq), num(4)]);
        }
        _ => panic!("expected a leaf"),
    }
}

#[test]
fn test_full_select() {
    let mut toks = basic_select_tokens();
    toks.extend(where_clause_tokens());
    toks.extend(vec![
        kw(Keyword::Group),
        kw(Keyword::By),
        p(Punct::LBrace),
        id("a"),
        p(Punct::Comma),
        id("b"),
        p(Punct::RBrace),
        kw(Keyword::Order),
        kw(Keyword::By),
        p(Punct::LBrace),
        id("a"),
        kw(Keyword::Asc),
        p(Punct::Comma),
        id("b"),
        kw(Keyword::Desc),
        p(Punct::RBrace),
        kw(Keyword::Limit),
        num(10),
        kw(Keyword::Offset),
        num(20),
    ]);
    let query = parse_tokens(&toks).unwrap();
    if let Query::Select {
        columns,
        table,
        where_clause,
        group_by,
        order_by,
        limit,
        offset,
        ..
    } = &query
    {
        println!("{:?}", &query);
        assert_eq!(columns.len(), 3);
        assert!(columns[0].is_named(&"a".to_string()));
        assert!(columns[1].is_named(&"b".to_string()));
        assert!(columns[2].is_named(&"c".to_string()));
        assert_eq!(table, "table");
        assert!(where_clause.is_some());
        assert_eq!(group_by.len(), 2);
        assert_eq!(group_by[0], "a");
        assert_eq!(group_by[1], "b");
        assert_eq!(order_by.len(), 2);
        assert_eq!(order_by[0].0, "a");
        assert_eq!(order_by[0].1, Ordering::Asc);
        assert_eq!(order_by[1].0, "b");
        assert_eq!(order_by[1].1, Ordering::Desc);
        assert_eq!(*limit, Some(10));
        assert_eq!(*offset, Some(20));
    } else {
        panic!("expected select query");
    }
}

/// `{INNER JOIN table2 ON a == b, FULL OUTER JOIN table2 ON c == d}`
fn join_list_tokens() -> Vec<Token> {
    vec![
        p(Punct::LBrace),
        kw(Keyword::Inner),
        kw(Keyword::Join),
        id("table2"),
        kw(Keyword::On),
        id("a"),
        p(Punct::EqEq),
        id("b"),
        p(Punct::Comma),
        kw(Keyword::Full),
        kw(Keyword::Outer),
        kw(Keyword::Join),
        id("table2"),
        kw(Keyword::On),
        id("c"),
        p(Punct::EqEq),
        id("d"),
        p(Punct::RBrace),
    ]
}

#[test]
fn test_joins() {
    let mut toks = basic_select_tokens();
    toks.extend(join_list_tokens());
    let query = parse_tokens(&toks).unwrap();
    if let Query::Select { joins, .. } = &query {
        println!("{:?}", &query);
        assert_eq!(joins.len(), 2);
        assert_eq!(joins[0].table, "table2");
        assert_eq!(joins[0].join_type, JoinType::Inner);
        assert!(!joins[0].outer);
        assert_eq!(joins[0].on.tokens, vec![id("a"), p(Punct::EqEq), id("b")]);
        assert_eq!(joins[1].table, "table2");
        assert_eq!(joins[1].join_type, JoinType::Full);
        assert!(joins[1].outer);
        assert_eq!(joins[1].on.tokens, vec![id("c"), p(Punct::EqEq), id("d")]);
    } else {
        panic!("expected select query");
    }
}

/// `RETURNING {a, b, *}`
fn returning_tokens() -> Vec<Token> {
    vec![
        kw(Keyword::Returning),
        p(Punct::LBrace),
        id("a"),
        p(Punct::Comma),
        id("b"),
        p(Punct::Comma),
        p(Punct::Star),
        p(Punct::RBrace),
    ]
}

#[test]
fn test_update() {
    // `UPDATE table SET {a = b, c = 22} WHERE c == d RETURNING {a, b, *}`
    let mut toks = vec![
        kw(Keyword::Update),
        id("table"),
        kw(Keyword::SetKw),
        p(Punct::LBrace),
        id("a"),
        p(Punct::Assign),
        id("b"),
        p(Punct::Comma),
        id("c"),
        p(Punct::Assign),
        num(22),
        p(Punct::RBrace),
        kw(Keyword::Where),
        id("c"),
        p(Punct::EqEq),
        id("d"),
    ];
    toks.extend(returning_tokens());
    let query = parse_tokens(&toks).unwrap();
    if let Query::Update { .. } = query {
        println!("{:?}", &query);
    } else {
        panic!("expected update query");
    }
}

#[test]
fn test_insert() {
    // `INSERT {a = b, c = 22} INTO table RETURNING {a, b, *}`
    let mut toks = vec![
        kw(Keyword::Insert),
        p(Punct::LBrace),
        id("a"),
        p(Punct::Assign),
        id("b"),
        p(Punct::Comma),
        id("c"),
        p(Punct::Assign),
        num(22),
        p(Punct::RBrace),
        kw(Keyword::Into),
        id("table"),
    ];
    toks.extend(returning_tokens());
    let query = parse_tokens(&toks).unwrap();
    if let Query::Insert { .. } = query {
        println!("{:?}", &query);
    } else {
        panic!("expected insert query");
    }
}

#[test]
fn test_insert_structure() {
    // two assignments, the table, and a three-entry returning list ending
    // with the wildcard
    let mut toks = vec![
        kw(Keyword::Insert),
        p(Punct::LBrace),
        id("a"),
        p(Punct::Assign),
        id("b"),
        p(Punct::Comma),
        id("c"),
        p(Punct::Assign),
        num(22),
        p(Punct::RBrace),
        kw(Keyword::Into),
        id("table"),
    ];
    toks.extend(returning_tokens());
    let query = parse_tokens(&toks).unwrap();
    if let Query::Insert {
        columns,
        table,
        returning,
    } = &query
    {
        assert_eq!(columns.len(), 2);
        assert_eq!(columns[0].0, "a");
        assert_eq!(columns[0].1.tokens, vec![id("b")]);
        assert_eq!(columns[1].0, "c");
        assert_eq!(columns[1].1.tokens, vec![num(22)]);
        assert_eq!(table, "table");
        assert_eq!(returning.len(), 3);
        assert_eq!(returning[0], named("a"));
        assert_eq!(returning[1], named("b"));
        assert_eq!(returning[2], Column::All);
    } else {
        panic!("expected insert query");
    }
}

#[test]
fn test_delete() {
    // `DELETE FROM table WHERE a == b RETURNING {a, b, *}`
    let mut toks = vec![
        kw(Keyword::Delete),
        kw(Keyword::From),
        id("table"),
        kw(Keyword::Where),
        id("a"),
        p(Punct::EqEq),
        id("b"),
    ];
    toks.extend(returning_tokens());
    let query = parse_tokens(&toks).unwrap();
    if let Query::Delete { .. } = query {
        println!("{:?}", &query);
    } else {
        panic!("expected delete query");
    }
}

#[test]
fn test_missing_statement_keyword() {
    // a bare `{a} FROM table` fails with an unexpected-token error naming
    // the statement keywords, and no partial tree is built
    let toks = vec![p(Punct::LBrace), id("a"), p(Punct::RBrace), kw(Keyword::From), id("table")];
    let err = parse_tokens(&toks).unwrap_err();
    assert_eq!(err.pos, 0);
    assert_eq!(err.expected, Expected::Statement);
    assert_eq!(err.found, Some(p(Punct::LBrace)));
}

#[test]
fn test_round_trip_all_kinds() {
    // parse, re-serialize to canonical tokens, re-parse: structurally equal
    let mut select = basic_select_tokens();
    select.extend(join_list_tokens());
    select.extend(where_clause_tokens());
    select.extend(vec![kw(Keyword::Limit), num(10), kw(Keyword::For), kw(Keyword::Share)]);
    let mut update = vec![
        kw(Keyword::Update),
        id("table"),
        kw(Keyword::SetKw),
        p(Punct::LBrace),
        id("a"),
        p(Punct::Assign),
        id("b"),
        p(Punct::RBrace),
    ];
    update.extend(returning_tokens());
    let insert = vec![
        kw(Keyword::Insert),
        p(Punct::LBrace),
        id("c"),
        p(Punct::Assign),
        num(7),
        p(Punct::RBrace),
        kw(Keyword::Into),
        id("t2"),
    ];
    let delete = vec![
        kw(Keyword::Delete),
        kw(Keyword::From),
        id("t3"),
        kw(Keyword::Where),
        id("a"),
        p(Punct::Lt),
        num(5),
    ];
    for toks in [select, update, insert, delete] {
        let first = parse_tokens(&toks).unwrap();
        let canonical = first.to_tokens();
        let second = parse_tokens(&canonical).unwrap();
        assert_eq!(first, second);
    }
}

#[test]
fn test_trailing_semicolon_and_comma() {
    // the terminator is optional, and list commas may trail
    let toks = vec![
        kw(Keyword::Select),
        p(Punct::LBrace),
        id("a"),
        p(Punct::Comma),
        p(Punct::RBrace),
        kw(Keyword::From),
        id("t"),
        p(Punct::Semicolon),
    ];
    let query = parse_tokens(&toks).unwrap();
    if let Query::Select { columns, .. } = &query {
        assert_eq!(columns, &vec![named("a")]);
    } else {
        panic!("expected select query");
    }
}

#[test]
fn test_empty_group_and_alias_and_lock() {
    // an empty brace pair is a legal group; aliases and FOR UPDATE parse
    let toks = vec![
        kw(Keyword::Select),
        p(Punct::LBrace),
        id("a"),
        kw(Keyword::As),
        id("b"),
        p(Punct::RBrace),
        kw(Keyword::From),
        id("t"),
        kw(Keyword::Where),
        kw(Keyword::Or),
        p(Punct::Colon),
        p(Punct::LBrace),
        p(Punct::RBrace),
        kw(Keyword::For),
        kw(Keyword::Update),
    ];
    let query = parse_tokens(&toks).unwrap();
    if let Query::Select {
        columns,
        where_clause,
        lock,
        ..
    } = &query
    {
        assert_eq!(columns[0], Column::Named("a".to_string(), Some("b".to_string())));
        match where_clause.as_ref().unwrap() {
            Where::BoolWhere(g) => {
                assert_eq!(g.op, BoolOp::Or);
                assert!(g.conditions.is_empty());
            }
            _ => panic!("expected a group"),
        }
        assert_eq!(*lock, Some(ForLock::Update));
    } else {
        panic!("expected select query");
    }
}

#[test]
fn test_error_positions() {
    // a lone NOT matches no comparison alternative
    let toks = vec![
        kw(Keyword::Select),
        p(Punct::LBrace),
        id("a"),
        p(Punct::RBrace),
        kw(Keyword::From),
        id("t"),
        kw(Keyword::Where),
        id("a"),
        kw(Keyword::Not),
        num(1),
    ];
    let err = parse_tokens(&toks).unwrap_err();
    assert_eq!(err.expected, Expected::Comparison);
    assert_eq!(err.pos, 8);

    // missing FROM
    let toks = vec![kw(Keyword::Select), p(Punct::LBrace), p(Punct::RBrace), id("t")];
    let err = parse_tokens(&toks).unwrap_err();
    assert_eq!(err.expected, Expected::Keyword(Keyword::From));
    assert_eq!(err.pos, 3);

    // a bad lock kind
    let toks = vec![
        kw(Keyword::Select),
        p(Punct::LBrace),
        p(Punct::RBrace),
        kw(Keyword::From),
        id("t"),
        kw(Keyword::For),
        id("nothing"),
    ];
    let err = parse_tokens(&toks).unwrap_err();
    assert_eq!(err.expected, Expected::LockKind);
    assert_eq!(err.pos, 6);

    // leftover tokens after a complete statement
    let toks = vec![
        kw(Keyword::Select),
        p(Punct::LBrace),
        p(Punct::RBrace),
        kw(Keyword::From),
        id("t"),
        p(Punct::Semicolon),
        id("junk"),
    ];
    let err = parse_tokens(&toks).unwrap_err();
    assert_eq!(err.expected, Expected::EndOfInput);
    assert_eq!(err.pos, 6);

    // end of input where an expression operand was required
    let toks = vec![
        kw(Keyword::Insert),
        p(Punct::LBrace),
        id("a"),
        p(Punct::Assign),
    ];
    let err = parse_tokens(&toks).unwrap_err();
    assert_eq!(err.expected, Expected::ValueExpr);
    assert_eq!(err.pos, 4);
    assert_eq!(err.found, None);
}

#[test]
fn test_combinator_as_column_name() {
    // AND/OR are reserved only when a colon follows: `WHERE AND == 1`
    // parses to a leaf whose column is named AND
    let toks = vec![
        kw(Keyword::Select),
        p(Punct::LBrace),
        id("a"),
        p(Punct::RBrace),
        kw(Keyword::From),
        id("t"),
        kw(Keyword::Where),
        kw(Keyword::And),
        p(Punct::EqEq),
        num(1),
    ];
    let query = parse_tokens(&toks).unwrap();
    let where_clause = match query {
        Query::Select { where_clause, .. } => where_clause.unwrap(),
        _ => panic!("expected select query"),
    };
    match &where_clause {
        Where::Column(leaf) => {
            assert_eq!(leaf.value.column, "AND");
            assert_eq!(leaf.value.op, WhereOp::Eq);
            assert_eq!(leaf.value.value.tokens, vec![num(1)]);
            assert!(leaf.condition.is_none());
        }
        _ => panic!("expected a leaf"),
    }

    // inside a group, and guarded: `OR: {OR LIKE 2 if b == 3}`
    let toks = vec![
        kw(Keyword::Select),
        p(Punct::LBrace),
        id("a"),
        p(Punct::RBrace),
        kw(Keyword::From),
        id("t"),
        kw(Keyword::Where),
        kw(Keyword::Or),
        p(Punct::Colon),
        p(Punct::LBrace),
        kw(Keyword::Or),
        kw(Keyword::Like),
        num(2),
        kw(Keyword::If),
        id("b"),
        p(Punct::EqEq),
        num(3),
        p(Punct::RBrace),
    ];
    let first = parse_tokens(&toks).unwrap();
    let group = match &first {
        Query::Select { where_clause, .. } => match where_clause.as_ref().unwrap() {
            Where::BoolWhere(g) => g,
            _ => panic!("expected a group"),
        },
        _ => panic!("expected select query"),
    };
    assert_eq!(group.op, BoolOp::Or);
    assert_eq!(group.conditions.len(), 1);
    match &group.conditions[0].value {
        Where::Column(leaf) => {
            assert_eq!(leaf.value.column, "OR");
            assert_eq!(leaf.value.op, WhereOp::Like);
            let guard = leaf.condition.as_ref().unwrap();
            assert_eq!(guard.tokens, vec![id("b"), p(Punct::EqEq), num(3)]);
        }
        _ => panic!("expected a leaf"),
    }

    // such a column re-serializes as a plain identifier; the tree survives
    // the round trip
    let second = parse_tokens(&first.to_tokens()).unwrap();
    assert_eq!(first, second);
}

#[test]
fn test_greedy_expression_extent() {
    // the delegate consumes operator/operand pairs greedily: the join
    // predicate is `a == b + 1`, stopping before the comma
    let mut toks = basic_select_tokens();
    toks.extend(vec![
        p(Punct::LBrace),
        kw(Keyword::Left),
        kw(Keyword::Join),
        id("u"),
        kw(Keyword::On),
        id("a"),
        p(Punct::EqEq),
        id("b"),
        p(Punct::Plus),
        num(1),
        p(Punct::RBrace),
    ]);
    let query = parse_tokens(&toks).unwrap();
    if let Query::Select { joins, .. } = &query {
        assert_eq!(joins.len(), 1);
        assert_eq!(joins[0].join_type, JoinType::Left);
        assert_eq!(
            joins[0].on.tokens,
            vec![id("a"), p(Punct::EqEq), id("b"), p(Punct::Plus), num(1)]
        );
    } else {
        panic!("expected select query");
    }
}
