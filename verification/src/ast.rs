use vstd::prelude::*;

use crate::token::Token;

verus! {

/// An opaque value expression: the run of tokens the expression delegate
/// consumed at an expression site. The statement grammar stores it without
/// ever looking inside; its view is the bare token sequence.
#[derive(Clone, Debug, PartialEq, Eq)]
pub struct Expr {
    pub tokens: Vec<Token>,
}

impl View for Expr {
    type V = Seq<Token>;

    open spec fn view(&self) -> Seq<Token> {
        self.tokens@
    }
}

/// A column reference of a select-column or returning list: the `*` wildcard,
/// or a name with an optional `AS` alias.
#[derive(Clone, Debug, PartialEq, Eq)]
pub enum Column {
    All,
    Named(String, Option<String>),
}

impl Column {
    /// Whether this reference names `name` (aliases do not count; the
    /// wildcard names nothing).
    pub fn is_named(&self, name: &String) -> (r: bool)
        ensures
            r == match *self {
                Column::All => false,
                Column::Named(n, _) => n@ == name@,
            },
    {
        match self {
            Column::All => false,
            Column::Named(n, _) => *n == *name,
        }
    }
}

/// The row-level lock requested by a trailing `FOR` clause.
#[derive(Clone, Copy, Debug, PartialEq, Eq, Structural)]
pub enum ForLock {
    Update,
    Share,
}

/// The combinator of a condition group.
#[derive(Clone, Copy, Debug, PartialEq, Eq, Structural)]
pub enum BoolOp {
    And,
    Or,
}

/// The comparison operator of a condition leaf. `NotLike` and `NotIn` only
/// exist as the two-keyword forms `NOT LIKE` and `NOT IN`.
#[derive(Clone, Copy, Debug, PartialEq, Eq, Structural)]
pub enum WhereOp {
    Eq,
    Ne,
    Gt,
    Ge,
    Lt,
    Le,
    Like,
    NotLike,
    In,
    NotIn,
}

/// Direction of one `ORDER BY` entry.
#[derive(Clone, Copy, Debug, PartialEq, Eq, Structural)]
pub enum Ordering {
    Asc,
    Desc,
}

/// How a join combines rows.
#[derive(Clone, Copy, Debug, PartialEq, Eq, Structural)]
pub enum JoinType {
    Inner,
    Left,
    Right,
    Full,
}

/// A value together with the optional guard expression that decides, at
/// build time, whether the value is included at all. Absence of the guard
/// means "always include".
#[derive(Debug, PartialEq, Eq)]
pub struct Conditional<T> {
    pub value: T,
    pub condition: Option<Expr>,
}

/// A condition leaf: one column compared against a value expression.
#[derive(Debug, PartialEq, Eq)]
pub struct ColumnCondition {
    pub column: String,
    pub op: WhereOp,
    pub value: Expr,
}

/// A condition group: `AND`/`OR` over an ordered list of guarded subtrees.
#[derive(Debug, PartialEq, Eq)]
pub struct BoolWhere {
    pub op: BoolOp,
    pub conditions: Vec<Conditional<Where>>,
}

/// One node of the filter tree: a guarded leaf, or a group.
#[derive(Debug, PartialEq, Eq)]
pub enum Where {
    Column(Conditional<ColumnCondition>),
    BoolWhere(BoolWhere),
}

/// One join entry: join kind, the independent `OUTER` flag, the joined
/// table, and the opaque `ON` predicate.
#[derive(Debug, PartialEq, Eq)]
pub struct Join {
    pub table: String,
    pub on: Expr,
    pub join_type: JoinType,
    pub outer: bool,
}

/// One parsed statement. The clause fields exist exactly on the statement
/// kinds whose grammar has them; an absent optional clause leaves its field
/// at the empty/`None` default.
#[derive(Debug, PartialEq, Eq)]
pub enum Query {
    Select {
        columns: Vec<Column>,
        table: String,
        where_clause: Option<Where>,
        group_by: Vec<String>,
        order_by: Vec<(String, Ordering)>,
        limit: Option<u128>,
        offset: Option<u128>,
        joins: Vec<Join>,
        lock: Option<ForLock>,
    },
    Update {
        columns: Vec<(String, Expr)>,
        table: String,
        where_clause: Option<Where>,
        returning: Vec<Column>,
    },
    Insert {
        columns: Vec<(String, Expr)>,
        table: String,
        returning: Vec<Column>,
    },
    Delete {
        table: String,
        where_clause: Option<Where>,
        returning: Vec<Column>,
    },
}

// ---------------------------------------------------------------------------
// Mathematical views. Sequences stand for vectors and bare token sequences
// for expressions; everything else is already a plain value.
// ---------------------------------------------------------------------------

/// View of a guarded value.
pub struct ConditionalV<TV> {
    pub value: TV,
    pub condition: Option<Seq<Token>>,
}

/// View of a condition leaf.
pub struct ColumnConditionV {
    pub column: String,
    pub op: WhereOp,
    pub value: Seq<Token>,
}

/// View of a condition group.
pub struct BoolWhereV {
    pub op: BoolOp,
    pub conditions: Seq<ConditionalV<WhereV>>,
}

/// View of a filter-tree node.
pub enum WhereV {
    Column(ConditionalV<ColumnConditionV>),
    BoolWhere(BoolWhereV),
}

/// View of a join entry.
pub struct JoinV {
    pub table: String,
    pub on: Seq<Token>,
    pub join_type: JoinType,
    pub outer: bool,
}

/// View of a statement.
pub enum QueryV {
    Select {
        columns: Seq<Column>,
        table: String,
        where_clause: Option<WhereV>,
        group_by: Seq<String>,
        order_by: Seq<(String, Ordering)>,
        limit: Option<u128>,
        offset: Option<u128>,
        joins: Seq<JoinV>,
        lock: Option<ForLock>,
    },
    Update {
        columns: Seq<(String, Seq<Token>)>,
        table: String,
        where_clause: Option<WhereV>,
        returning: Seq<Column>,
    },
    Insert {
        columns: Seq<(String, Seq<Token>)>,
        table: String,
        returning: Seq<Column>,
    },
    Delete {
        table: String,
        where_clause: Option<WhereV>,
        returning: Seq<Column>,
    },
}

pub open spec fn opt_expr_view(o: Option<Expr>) -> Option<Seq<Token>> {
    match o {
        Some(e) => Some(e@),
        None => None,
    }
}

/// View of a condition leaf.
pub open spec fn cc_view(c: ColumnCondition) -> ColumnConditionV {
    ColumnConditionV { column: c.column, op: c.op, value: c.value@ }
}

pub open spec fn cond_cc_view(c: Conditional<ColumnCondition>) -> ConditionalV<ColumnConditionV> {
    ConditionalV { value: cc_view(c.value), condition: opt_expr_view(c.condition) }
}

pub open spec fn where_view(w: Where) -> WhereV
    decreases w,
{
    match w {
        Where::Column(c) => WhereV::Column(cond_cc_view(c)),
        Where::BoolWhere(b) => WhereV::BoolWhere(bw_view(b)),
    }
}

pub open spec fn cond_where_view(c: Conditional<Where>) -> ConditionalV<WhereV>
    decreases c,
{
    ConditionalV { value: where_view(c.value), condition: opt_expr_view(c.condition) }
}

pub open spec fn conds_view(cs: Seq<Conditional<Where>>) -> Seq<ConditionalV<WhereV>>
    decreases cs,
{
    if cs.len() == 0 {
        Seq::empty()
    } else {
        conds_view(cs.drop_last()).push(cond_where_view(cs.last()))
    }
}

impl View for Where {
    type V = WhereV;

    open spec fn view(&self) -> WhereV {
        where_view(*self)
    }
}

impl View for Join {
    type V = JoinV;

    open spec fn view(&self) -> JoinV {
        JoinV { table: self.table, on: self.on@, join_type: self.join_type, outer: self.outer }
    }
}

/// View of a condition group.
pub open spec fn bw_view(b: BoolWhere) -> BoolWhereV
    decreases b,
{
    BoolWhereV { op: b.op, conditions: conds_view(b.conditions@) }
}

pub open spec fn opt_where_view(o: Option<Where>) -> Option<WhereV> {
    match o {
        Some(w) => Some(where_view(w)),
        None => None,
    }
}

pub open spec fn joins_view(js: Seq<Join>) -> Seq<JoinV>
    decreases js,
{
    if js.len() == 0 {
        Seq::empty()
    } else {
        joins_view(js.drop_last()).push(js.last()@)
    }
}

pub open spec fn assigns_view(s: Seq<(String, Expr)>) -> Seq<(String, Seq<Token>)>
    decreases s,
{
    if s.len() == 0 {
        Seq::empty()
    } else {
        assigns_view(s.drop_last()).push((s.last().0, s.last().1@))
    }
}

impl View for Query {
    type V = QueryV;

    open spec fn view(&self) -> QueryV {
        match *self {
            Query::Select {
                columns,
                table,
                where_clause,
                group_by,
                order_by,
                limit,
                offset,
                joins,
                lock,
            } => QueryV::Select {
                columns: columns@,
                table: table,
                where_clause: opt_where_view(where_clause),
                group_by: group_by@,
                order_by: order_by@,
                limit: limit,
                offset: offset,
                joins: joins_view(joins@),
                lock: lock,
            },
            Query::Update { columns, table, where_clause, returning } => QueryV::Update {
                columns: assigns_view(columns@),
                table: table,
                where_clause: opt_where_view(where_clause),
                returning: returning@,
            },
            Query::Insert { columns, table, returning } => QueryV::Insert {
                columns: assigns_view(columns@),
                table: table,
                returning: returning@,
            },
            Query::Delete { table, where_clause, returning } => QueryV::Delete {
                table: table,
                where_clause: opt_where_view(where_clause),
                returning: returning@,
            },
        }
    }
}

} // verus!
