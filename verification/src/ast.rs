//! The syntax tree. The parser produces the raw tree, in which every
//! node's type attribute is `Type::Unspecified`; the analyzer consumes it
//! and produces the typed tree, a sibling shape whose subqueries are
//! themselves typed. Both shapes share one mathematical model (`QueryView`
//! and friends), in which text payloads are `Seq<char>`.

use vstd::prelude::*;
use crate::token::{Num, NumView, Operator};

verus! {

/// A 1-based source position, attached to every token and node.
#[derive(Clone, Copy, PartialEq, Eq, Structural, PartialOrd, Ord, Hash, Debug)]
pub struct Pos {
    pub line: u32,
    pub col: u32,
}

/// The closed set of type tags. `Unspecified` is the placeholder before
/// analysis runs; scalar tags carry no structure of their own.
#[derive(Clone, Copy, PartialEq, Eq, Structural, Debug, Default)]
pub enum Type {
    #[default]
    Unspecified,
    Number,
    String,
    Bool,
    Array,
    Record,
    Subject,
}

/// Attributes attached to every expression and query node: its source
/// position, the id of the lexical scope it was parsed in, and its type.
#[derive(Clone, Copy, PartialEq, Eq, Structural, Debug)]
pub struct Attrs {
    pub pos: Pos,
    pub scope: u64,
    pub tpe: Type,
}

impl Attrs {
    /// Fresh attributes as the parser creates them: the type is not yet known.
    pub fn new(pos: Pos, scope: u64) -> (r: Self)
        ensures
            r == (Attrs { pos, scope, tpe: Type::Unspecified }),
    {
        Attrs { pos, scope, tpe: Type::Unspecified }
    }
}

/// A sort direction of an `order by` clause.
#[derive(Clone, Copy, PartialEq, Eq, Structural, Debug)]
pub enum Order {
    Asc,
    Desc,
}

/// A limit clause: drop the first `n` rows, or keep only the first `n`.
#[derive(Clone, Copy, PartialEq, Eq, Structural, Debug)]
pub enum Limit {
    Skip(u64),
    Top(u64),
}

/// An expression node of the raw tree.
#[derive(Debug)]
pub struct Expr {
    pub attrs: Attrs,
    pub value: Value,
}

/// A field access `target.field`.
#[derive(Debug)]
pub struct Access {
    pub target: Box<Expr>,
    pub field: String,
}

/// A function application `func(args...)`.
#[derive(Debug)]
pub struct App {
    pub func: String,
    pub args: Vec<Expr>,
}

/// One `name: value` field of a record literal.
#[derive(Debug)]
pub struct Field {
    pub name: String,
    pub value: Expr,
}

/// A binary operator application, left-associative.
#[derive(Debug)]
pub struct Binary {
    pub lhs: Box<Expr>,
    pub operator: Operator,
    pub rhs: Box<Expr>,
}

/// A leading unary `+` or `-`; its operand is the whole expression after it.
#[derive(Debug)]
pub struct Unary {
    pub operator: Operator,
    pub expr: Box<Expr>,
}

/// The shape of a raw expression.
#[derive(Debug)]
pub enum Value {
    Number(Num),
    String(String),
    Bool(bool),
    Id(String),
    Array(Vec<Expr>),
    Record(Vec<Field>),
    Access(Access),
    App(App),
    Binary(Binary),
    Unary(Unary),
    Group(Box<Expr>),
}

/// One `from binding in kind` clause; `pos` is the binding's position,
/// which duplicate-binding diagnostics point at.
#[derive(Debug)]
pub struct Source {
    pub binding: String,
    pub pos: Pos,
    pub kind: SourceKind,
}

/// What a source draws from: the built-in event stream, a named subject,
/// or a nested query whose projection type becomes the binding's type.
#[derive(Debug)]
pub enum SourceKind {
    Events,
    Subject(String),
    Subquery(Box<Query>),
}

/// An `order by` clause: the key expression and its direction.
#[derive(Debug)]
pub struct OrderBy {
    pub expr: Expr,
    pub order: Order,
}

/// A raw query: one or more sources, the optional clauses in grammar
/// order, and the mandatory projection.
#[derive(Debug)]
pub struct Query {
    pub attrs: Attrs,
    pub sources: Vec<Source>,
    pub predicate: Option<Expr>,
    pub group_by: Option<Expr>,
    pub order_by: Option<OrderBy>,
    pub limit: Option<Limit>,
    pub projection: Box<Expr>,
}

/// An expression node of the typed tree.
#[derive(Debug)]
pub struct TypedExpr {
    pub attrs: Attrs,
    pub value: TypedValue,
}

/// A field access of the typed tree.
#[derive(Debug)]
pub struct TypedAccess {
    pub target: Box<TypedExpr>,
    pub field: String,
}

/// A function application of the typed tree.
#[derive(Debug)]
pub struct TypedApp {
    pub func: String,
    pub args: Vec<TypedExpr>,
}

/// A record field of the typed tree.
#[derive(Debug)]
pub struct TypedField {
    pub name: String,
    pub value: TypedExpr,
}

/// A binary application of the typed tree.
#[derive(Debug)]
pub struct TypedBinary {
    pub lhs: Box<TypedExpr>,
    pub operator: Operator,
    pub rhs: Box<TypedExpr>,
}

/// A unary application of the typed tree.
#[derive(Debug)]
pub struct TypedUnary {
    pub operator: Operator,
    pub expr: Box<TypedExpr>,
}

/// The shape of a typed expression.
#[derive(Debug)]
pub enum TypedValue {
    Number(Num),
    String(String),
    Bool(bool),
    Id(String),
    Array(Vec<TypedExpr>),
    Record(Vec<TypedField>),
    Access(TypedAccess),
    App(TypedApp),
    Binary(TypedBinary),
    Unary(TypedUnary),
    Group(Box<TypedExpr>),
}

/// A source of the typed tree; a subquery source holds a typed query.
#[derive(Debug)]
pub struct TypedSource {
    pub binding: String,
    pub pos: Pos,
    pub kind: TypedSourceKind,
}

/// The kind of a typed source.
#[derive(Debug)]
pub enum TypedSourceKind {
    Events,
    Subject(String),
    Subquery(Box<TypedQuery>),
}

/// An `order by` clause of the typed tree.
#[derive(Debug)]
pub struct TypedOrderBy {
    pub expr: TypedExpr,
    pub order: Order,
}

/// A typed query, the analyzer's sole output artifact.
#[derive(Debug)]
pub struct TypedQuery {
    pub attrs: Attrs,
    pub sources: Vec<TypedSource>,
    pub predicate: Option<TypedExpr>,
    pub group_by: Option<TypedExpr>,
    pub order_by: Option<TypedOrderBy>,
    pub limit: Option<Limit>,
    pub projection: Box<TypedExpr>,
}

/// Model of an expression node; shared by the raw and the typed tree.
pub struct ExprView {
    pub attrs: Attrs,
    pub value: ValueView,
}

/// Model of a field access.
pub struct AccessView {
    pub target: Box<ExprView>,
    pub field: Seq<char>,
}

/// Model of a function application.
pub struct AppView {
    pub func: Seq<char>,
    pub args: Seq<ExprView>,
}

/// Model of a record field.
pub struct FieldView {
    pub name: Seq<char>,
    pub value: ExprView,
}

/// Model of a binary application.
pub struct BinaryView {
    pub lhs: Box<ExprView>,
    pub operator: Operator,
    pub rhs: Box<ExprView>,
}

/// Model of a unary application.
pub struct UnaryView {
    pub operator: Operator,
    pub expr: Box<ExprView>,
}

/// Model of an expression's shape.
pub enum ValueView {
    Number(NumView),
    String(Seq<char>),
    Bool(bool),
    Id(Seq<char>),
    Array(Seq<ExprView>),
    Record(Seq<FieldView>),
    Access(AccessView),
    App(AppView),
    Binary(BinaryView),
    Unary(UnaryView),
    Group(Box<ExprView>),
}

/// Model of a source clause.
pub struct SourceView {
    pub binding: Seq<char>,
    pub pos: Pos,
    pub kind: SourceKindView,
}

/// Model of a source's kind.
pub enum SourceKindView {
    Events,
    Subject(Seq<char>),
    Subquery(Box<QueryView>),
}

/// Model of an `order by` clause.
pub struct OrderByView {
    pub expr: ExprView,
    pub order: Order,
}

/// Model of a query.
pub struct QueryView {
    pub attrs: Attrs,
    pub sources: Seq<SourceView>,
    pub predicate: Option<ExprView>,
    pub group_by: Option<ExprView>,
    pub order_by: Option<OrderByView>,
    pub limit: Option<Limit>,
    pub projection: Box<ExprView>,
}

/// The model of a raw expression.
pub open spec fn expr_view(e: Expr) -> ExprView
    decreases e,
{
    ExprView { attrs: e.attrs, value: value_view(e.value) }
}

/// The model of a raw expression's shape.
pub open spec fn value_view(v: Value) -> ValueView
    decreases v,
{
    match v {
        Value::Number(n) => ValueView::Number(n@),
        Value::String(s) => ValueView::String(s@),
        Value::Bool(b) => ValueView::Bool(b),
        Value::Id(n) => ValueView::Id(n@),
        Value::Array(es) => ValueView::Array(exprs_view(es@)),
        Value::Record(fs) => ValueView::Record(fields_view(fs@)),
        Value::Access(a) => ValueView::Access(
            AccessView { target: Box::new(expr_view(*a.target)), field: a.field@ },
        ),
        Value::App(a) => ValueView::App(AppView { func: a.func@, args: exprs_view(a.args@) }),
        Value::Binary(b) => ValueView::Binary(
            BinaryView {
                lhs: Box::new(expr_view(*b.lhs)),
                operator: b.operator,
                rhs: Box::new(expr_view(*b.rhs)),
            },
        ),
        Value::Unary(u) => ValueView::Unary(
            UnaryView { operator: u.operator, expr: Box::new(expr_view(*u.expr)) },
        ),
        Value::Group(g) => ValueView::Group(Box::new(expr_view(*g))),
    }
}

/// The models of a sequence of raw expressions.
pub open spec fn exprs_view(es: Seq<Expr>) -> Seq<ExprView>
    decreases es,
{
    Seq::new(es.len(), |i: int| if 0 <= i < es.len() { expr_view(es[i]) } else { arbitrary() })
}

/// The models of a sequence of raw record fields.
pub open spec fn fields_view(fs: Seq<Field>) -> Seq<FieldView>
    decreases fs,
{
    Seq::new(
        fs.len(),
        |i: int|
            if 0 <= i < fs.len() {
                FieldView { name: fs[i].name@, value: expr_view(fs[i].value) }
            } else {
                arbitrary()
            },
    )
}

/// The model of a raw source.
pub open spec fn source_view(s: Source) -> SourceView
    decreases s,
{
    SourceView { binding: s.binding@, pos: s.pos, kind: kind_view(s.kind) }
}

/// The model of a raw source's kind.
pub open spec fn kind_view(k: SourceKind) -> SourceKindView
    decreases k,
{
    match k {
        SourceKind::Events => SourceKindView::Events,
        SourceKind::Subject(n) => SourceKindView::Subject(n@),
        SourceKind::Subquery(q) => SourceKindView::Subquery(Box::new(query_view(*q))),
    }
}

/// The models of a sequence of raw sources.
pub open spec fn sources_view(ss: Seq<Source>) -> Seq<SourceView>
    decreases ss,
{
    Seq::new(ss.len(), |i: int| if 0 <= i < ss.len() { source_view(ss[i]) } else { arbitrary() })
}

/// The model of an optional raw expression.
pub open spec fn opt_expr_view(o: Option<Expr>) -> Option<ExprView>
    decreases o,
{
    match o {
        Some(e) => Some(expr_view(e)),
        None => None,
    }
}

/// The model of a raw query.
pub open spec fn query_view(q: Query) -> QueryView
    decreases q,
{
    QueryView {
        attrs: q.attrs,
        sources: sources_view(q.sources@),
        predicate: opt_expr_view(q.predicate),
        group_by: opt_expr_view(q.group_by),
        order_by: match q.order_by {
            Some(ob) => Some(OrderByView { expr: expr_view(ob.expr), order: ob.order }),
            None => None,
        },
        limit: q.limit,
        projection: Box::new(expr_view(*q.projection)),
    }
}

/// The model of a typed expression.
pub open spec fn typed_expr_view(e: TypedExpr) -> ExprView
    decreases e,
{
    ExprView { attrs: e.attrs, value: typed_value_view(e.value) }
}

/// The model of a typed expression's shape.
pub open spec fn typed_value_view(v: TypedValue) -> ValueView
    decreases v,
{
    match v {
        TypedValue::Number(n) => ValueView::Number(n@),
        TypedValue::String(s) => ValueView::String(s@),
        TypedValue::Bool(b) => ValueView::Bool(b),
        TypedValue::Id(n) => ValueView::Id(n@),
        TypedValue::Array(es) => ValueView::Array(typed_exprs_view(es@)),
        TypedValue::Record(fs) => ValueView::Record(typed_fields_view(fs@)),
        TypedValue::Access(a) => ValueView::Access(
            AccessView { target: Box::new(typed_expr_view(*a.target)), field: a.field@ },
        ),
        TypedValue::App(a) => ValueView::App(
            AppView { func: a.func@, args: typed_exprs_view(a.args@) },
        ),
        TypedValue::Binary(b) => ValueView::Binary(
            BinaryView {
                lhs: Box::new(typed_expr_view(*b.lhs)),
                operator: b.operator,
                rhs: Box::new(typed_expr_view(*b.rhs)),
            },
        ),
        TypedValue::Unary(u) => ValueView::Unary(
            UnaryView { operator: u.operator, expr: Box::new(typed_expr_view(*u.expr)) },
        ),
        TypedValue::Group(g) => ValueView::Group(Box::new(typed_expr_view(*g))),
    }
}

/// The models of a sequence of typed expressions.
pub open spec fn typed_exprs_view(es: Seq<TypedExpr>) -> Seq<ExprView>
    decreases es,
{
    Seq::new(
        es.len(),
        |i: int| if 0 <= i < es.len() { typed_expr_view(es[i]) } else { arbitrary() },
    )
}

/// The models of a sequence of typed record fields.
pub open spec fn typed_fields_view(fs: Seq<TypedField>) -> Seq<FieldView>
    decreases fs,
{
    Seq::new(
        fs.len(),
        |i: int|
            if 0 <= i < fs.len() {
                FieldView { name: fs[i].name@, value: typed_expr_view(fs[i].value) }
            } else {
                arbitrary()
            },
    )
}

/// The model of a typed source.
pub open spec fn typed_source_view(s: TypedSource) -> SourceView
    decreases s,
{
    SourceView { binding: s.binding@, pos: s.pos, kind: typed_kind_view(s.kind) }
}

/// The model of a typed source's kind.
pub open spec fn typed_kind_view(k: TypedSourceKind) -> SourceKindView
    decreases k,
{
    match k {
        TypedSourceKind::Events => SourceKindView::Events,
        TypedSourceKind::Subject(n) => SourceKindView::Subject(n@),
        TypedSourceKind::Subquery(q) => SourceKindView::Subquery(
            Box::new(typed_query_view(*q)),
        ),
    }
}

/// The models of a sequence of typed sources.
pub open spec fn typed_sources_view(ss: Seq<TypedSource>) -> Seq<SourceView>
    decreases ss,
{
    Seq::new(
        ss.len(),
        |i: int| if 0 <= i < ss.len() { typed_source_view(ss[i]) } else { arbitrary() },
    )
}

/// The model of an optional typed expression.
pub open spec fn typed_opt_expr_view(o: Option<TypedExpr>) -> Option<ExprView>
    decreases o,
{
    match o {
        Some(e) => Some(typed_expr_view(e)),
        None => None,
    }
}

/// The model of a typed query.
pub open spec fn typed_query_view(q: TypedQuery) -> QueryView
    decreases q,
{
    QueryView {
        attrs: q.attrs,
        sources: typed_sources_view(q.sources@),
        predicate: typed_opt_expr_view(q.predicate),
        group_by: typed_opt_expr_view(q.group_by),
        order_by: match q.order_by {
            Some(ob) => Some(OrderByView { expr: typed_expr_view(ob.expr), order: ob.order }),
            None => None,
        },
        limit: q.limit,
        projection: Box::new(typed_expr_view(*q.projection)),
    }
}

/// The same attributes with the position blanked: what remains of a
/// node's attributes when source positions are set aside.
pub open spec fn strip_attrs(a: Attrs) -> Attrs {
    Attrs { pos: Pos { line: 0, col: 0 }, scope: a.scope, tpe: a.tpe }
}

/// An expression model with every source position blanked.
pub open spec fn strip_expr(e: ExprView) -> ExprView
    decreases e,
{
    ExprView { attrs: strip_attrs(e.attrs), value: strip_value(e.value) }
}

/// An expression shape with every source position blanked.
pub open spec fn strip_value(v: ValueView) -> ValueView
    decreases v,
{
    match v {
        ValueView::Number(n) => ValueView::Number(n),
        ValueView::String(s) => ValueView::String(s),
        ValueView::Bool(b) => ValueView::Bool(b),
        ValueView::Id(n) => ValueView::Id(n),
        ValueView::Array(es) => ValueView::Array(strip_exprs(es)),
        ValueView::Record(fs) => ValueView::Record(strip_fields(fs)),
        ValueView::Access(a) => ValueView::Access(
            AccessView { target: Box::new(strip_expr(*a.target)), field: a.field },
        ),
        ValueView::App(a) => ValueView::App(AppView { func: a.func, args: strip_exprs(a.args) }),
        ValueView::Binary(b) => ValueView::Binary(
            BinaryView {
                lhs: Box::new(strip_expr(*b.lhs)),
                operator: b.operator,
                rhs: Box::new(strip_expr(*b.rhs)),
            },
        ),
        ValueView::Unary(u) => ValueView::Unary(
            UnaryView { operator: u.operator, expr: Box::new(strip_expr(*u.expr)) },
        ),
        ValueView::Group(g) => ValueView::Group(Box::new(strip_expr(*g))),
    }
}

/// Expression models with every source position blanked.
pub open spec fn strip_exprs(es: Seq<ExprView>) -> Seq<ExprView>
    decreases es,
{
    Seq::new(es.len(), |i: int| if 0 <= i < es.len() { strip_expr(es[i]) } else { arbitrary() })
}

/// Record field models with every source position blanked.
pub open spec fn strip_fields(fs: Seq<FieldView>) -> Seq<FieldView>
    decreases fs,
{
    Seq::new(
        fs.len(),
        |i: int|
            if 0 <= i < fs.len() {
                FieldView { name: fs[i].name, value: strip_expr(fs[i].value) }
            } else {
                arbitrary()
            },
    )
}

/// An optional expression model with every source position blanked.
pub open spec fn strip_opt_expr(o: Option<ExprView>) -> Option<ExprView>
    decreases o,
{
    match o {
        None => None,
        Some(e) => Some(strip_expr(e)),
    }
}

/// A source kind model with every source position blanked.
pub open spec fn strip_kind(k: SourceKindView) -> SourceKindView
    decreases k,
{
    match k {
        SourceKindView::Events => SourceKindView::Events,
        SourceKindView::Subject(n) => SourceKindView::Subject(n),
        SourceKindView::Subquery(q) => SourceKindView::Subquery(Box::new(strip_query(*q))),
    }
}

/// A source model with every source position blanked.
pub open spec fn strip_source(s: SourceView) -> SourceView
    decreases s,
{
    SourceView { binding: s.binding, pos: Pos { line: 0, col: 0 }, kind: strip_kind(s.kind) }
}

/// Source models with every source position blanked.
pub open spec fn strip_sources(ss: Seq<SourceView>) -> Seq<SourceView>
    decreases ss,
{
    Seq::new(ss.len(), |i: int| if 0 <= i < ss.len() { strip_source(ss[i]) } else { arbitrary() })
}

/// An optional ordering clause model with every source position blanked.
pub open spec fn strip_order_by(o: Option<OrderByView>) -> Option<OrderByView>
    decreases o,
{
    match o {
        None => None,
        Some(ob) => Some(OrderByView { expr: strip_expr(ob.expr), order: ob.order }),
    }
}

/// A query model with every source position blanked: two queries with
/// equal strips are structurally identical up to position metadata.
pub open spec fn strip_query(q: QueryView) -> QueryView
    decreases q,
{
    QueryView {
        attrs: strip_attrs(q.attrs),
        sources: strip_sources(q.sources),
        predicate: strip_opt_expr(q.predicate),
        group_by: strip_opt_expr(q.group_by),
        order_by: strip_order_by(q.order_by),
        limit: q.limit,
        projection: Box::new(strip_expr(*q.projection)),
    }
}

} // verus!
