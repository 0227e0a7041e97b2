//! The static analyzer: consumes a raw query, builds the lexical scopes
//! query by query, resolves each source binding's shape, and propagates
//! structural types through every clause expression, producing the typed
//! tree or the first semantic error.
//!
//! `spec_static_analysis` is the mathematical definition; the executable
//! analyzer is proved to return exactly its result. Scope ids mirror the
//! parser's counter: the registry holds the scope with id `d + 1` at
//! index `d`, with the root scope (the configured default) at index 0.
//! Identifier lookup consults a query's own scope and the root scope
//! only: every scope in between belongs to an enclosing query still
//! registering its sources, and such sibling bindings must stay
//! invisible inside a source's body.

use vstd::prelude::*;
use crate::ast::{
    Access, AccessView, App, AppView, Attrs, Binary, BinaryView, Expr, ExprView, Field, FieldView,
    OrderBy, OrderByView, Query, QueryView, Source, SourceKind, SourceKindView, SourceView, Type,
    TypedAccess, TypedApp, TypedBinary, TypedExpr, TypedField, TypedOrderBy, TypedQuery,
    TypedSource, TypedSourceKind, TypedUnary, TypedValue, Unary, UnaryView, Value, ValueView,
};
use crate::ast::{expr_view, exprs_view, fields_view, opt_expr_view, query_view, source_view,
    sources_view, typed_expr_view, typed_exprs_view, typed_fields_view, typed_query_view,
    typed_source_view, typed_sources_view};
use crate::ast::{strip_attrs, strip_expr, strip_exprs, strip_fields, strip_kind, strip_opt_expr,
    strip_order_by, strip_query, strip_source, strip_sources, strip_value};
use crate::error::{AnalysisError, AnalysisErrorView};
use vstd::std_specs::vec::vec_index_mut;

verus! {

/// The shape of a value: a type tag and, for records, one property per
/// field. Properties are kept as ordered name/shape pairs; a lookup
/// takes the first entry with the sought name.
#[derive(Debug, Default)]
pub struct TypeInfo {
    pub tpe: Type,
    pub props: Vec<(String, TypeInfo)>,
}

/// Model of a value's shape: names as `Seq<char>`.
pub struct TypeInfoView {
    pub tpe: Type,
    pub props: Seq<(Seq<char>, TypeInfoView)>,
}

/// The model of a shape: its properties are the models of its entries.
pub open spec fn ti_view(t: TypeInfo) -> TypeInfoView
    decreases t,
{
    TypeInfoView { tpe: t.tpe, props: entries_view(t.props@) }
}

/// The models of a sequence of shapes.
pub open spec fn infos_view(s: Seq<TypeInfo>) -> Seq<TypeInfoView> {
    Seq::new(s.len(), |i: int| if 0 <= i < s.len() { ti_view(s[i]) } else { arbitrary() })
}

/// A scalar shape, with no structure of its own.
pub open spec fn scalar(tpe: Type) -> TypeInfoView {
    TypeInfoView { tpe, props: seq![] }
}

/// One lexical scope: the bindings introduced by the `from` clauses of
/// the queries that share this scope id, in declaration order. Binding
/// names are unique within one scope; the analyzer rejects a duplicate.
#[derive(Debug, Default)]
pub struct Scope {
    pub entries: Vec<(String, TypeInfo)>,
}

/// The models of a sequence of name/shape entries.
pub open spec fn entries_view(s: Seq<(String, TypeInfo)>) -> Seq<(Seq<char>, TypeInfoView)>
    decreases s,
{
    Seq::new(s.len(), |i: int| if 0 <= i < s.len() { (s[i].0@, ti_view(s[i].1)) } else { arbitrary() })
}

/// The model of a scope.
pub open spec fn scope_view(s: Scope) -> Seq<(Seq<char>, TypeInfoView)> {
    entries_view(s.entries@)
}

/// All scopes seen by one analysis: index `d` holds the scope whose id
/// is `d + 1`, so the chain of a scope is exactly the indices below it.
#[derive(Debug, Default)]
pub struct TypeRegistry {
    pub scopes: Vec<Scope>,
}

/// The model of the registry.
pub open spec fn registry_view(r: TypeRegistry) -> Seq<Seq<(Seq<char>, TypeInfoView)>> {
    Seq::new(
        r.scopes@.len(),
        |i: int| if 0 <= i < r.scopes@.len() { scope_view(r.scopes@[i]) } else { arbitrary() },
    )
}

/// What the catalog collaborator supplies: the ambient root scope and
/// the shape of the built-in event stream.
#[derive(Debug, Default)]
pub struct AnalysisOptions {
    pub default_scope: Scope,
    pub event_type_info: TypeInfo,
}

/// Model of the analysis configuration.
pub struct OptionsView {
    pub default_scope: Seq<(Seq<char>, TypeInfoView)>,
    pub event_type_info: TypeInfoView,
}

/// The model of the configuration.
pub open spec fn opts_view(o: AnalysisOptions) -> OptionsView {
    OptionsView {
        default_scope: scope_view(o.default_scope),
        event_type_info: ti_view(o.event_type_info),
    }
}

/// The first entry at or after `i` bearing `name`, if any.
pub open spec fn scope_find_from(
    entries: Seq<(Seq<char>, TypeInfoView)>,
    i: int,
    name: Seq<char>,
) -> Option<TypeInfoView>
    decreases entries.len() - i,
{
    if !(0 <= i < entries.len()) {
        None
    } else if entries[i].0 == name {
        Some(entries[i].1)
    } else {
        scope_find_from(entries, i + 1, name)
    }
}

/// The first entry bearing `name` in one scope, if any.
pub open spec fn scope_find(
    entries: Seq<(Seq<char>, TypeInfoView)>,
    name: Seq<char>,
) -> Option<TypeInfoView> {
    scope_find_from(entries, 0, name)
}

/// Identifier lookup for the clause expressions of the query whose scope
/// sits at index `d`: the query's own scope first, then the root scope at
/// index 0 (the configured ambient bindings). No scope in between is
/// consulted. A subquery is only ever analyzed while each of its
/// enclosing queries is still registering its sources, so every scope
/// strictly between a query's own and the root holds, at that moment,
/// exactly sibling-source bindings — and sibling bindings must stay
/// invisible inside a source's body; they become visible only in their
/// own query's later clauses, once all of its sources are registered.
pub open spec fn lookup_visible(
    reg: Seq<Seq<(Seq<char>, TypeInfoView)>>,
    d: int,
    name: Seq<char>,
) -> Option<TypeInfoView> {
    if !(0 <= d < reg.len()) {
        None
    } else {
        match scope_find(reg[d], name) {
            Some(ti) => Some(ti),
            None => if d == 0 {
                None
            } else {
                scope_find(reg[0], name)
            },
        }
    }
}

/// The synthetic property name that carries an array's element shape.
pub open spec fn elem_key() -> Seq<char> {
    seq!['e', 'l', 'e', 'm', 'e', 'n', 't']
}

/// The same attributes with the type filled in.
pub open spec fn retag(a: Attrs, tpe: Type) -> Attrs {
    Attrs { pos: a.pos, scope: a.scope, tpe }
}

/// Structural type propagation through one expression: literals take
/// their scalar types; identifiers resolve in the visible scopes; arrays
/// take an element shape from their first element; records take one
/// property per field; a field access requires a record-shaped target
/// holding the field; applications stay unspecified (operator-level
/// typing is no concern of this front end); binary, unary and grouped
/// expressions pass their first operand's shape through.
pub open spec fn spec_type_expr(
    reg: Seq<Seq<(Seq<char>, TypeInfoView)>>,
    d: int,
    e: ExprView,
) -> Result<(ExprView, TypeInfoView), AnalysisErrorView>
    decreases e, 0int,
{
    match e.value {
        ValueView::Number(_) => Ok(
            (ExprView { attrs: retag(e.attrs, Type::Number), value: e.value }, scalar(Type::Number)),
        ),
        ValueView::String(_) => Ok(
            (ExprView { attrs: retag(e.attrs, Type::String), value: e.value }, scalar(Type::String)),
        ),
        ValueView::Bool(_) => Ok(
            (ExprView { attrs: retag(e.attrs, Type::Bool), value: e.value }, scalar(Type::Bool)),
        ),
        ValueView::Id(n) => match lookup_visible(reg, d, n) {
            Some(ti) => Ok((ExprView { attrs: retag(e.attrs, ti.tpe), value: e.value }, ti)),
            None => Err(
                AnalysisErrorView::UnresolvedIdentifier(e.attrs.pos.line, e.attrs.pos.col, n),
            ),
        },
        ValueView::Array(es) => match spec_type_exprs(reg, d, es) {
            Err(er) => Err(er),
            Ok((tes, infos)) => {
                let info = if infos.len() == 0 {
                    TypeInfoView { tpe: Type::Array, props: seq![] }
                } else {
                    TypeInfoView { tpe: Type::Array, props: seq![(elem_key(), infos[0])] }
                };
                Ok((ExprView { attrs: retag(e.attrs, Type::Array), value: ValueView::Array(tes) }, info))
            },
        },
        ValueView::Record(fs) => match spec_type_fields(reg, d, fs) {
            Err(er) => Err(er),
            Ok((tfs, props)) => Ok(
                (
                    ExprView { attrs: retag(e.attrs, Type::Record), value: ValueView::Record(tfs) },
                    TypeInfoView { tpe: Type::Record, props },
                ),
            ),
        },
        ValueView::Access(a) => match spec_type_expr(reg, d, *a.target) {
            Err(er) => Err(er),
            Ok((tt, ti)) => if ti.tpe != Type::Record {
                Err(AnalysisErrorView::NotARecord(e.attrs.pos.line, e.attrs.pos.col))
            } else {
                match scope_find(ti.props, a.field) {
                    None => Err(
                        AnalysisErrorView::UnknownField(e.attrs.pos.line, e.attrs.pos.col, a.field),
                    ),
                    Some(fi) => Ok(
                        (
                            ExprView {
                                attrs: retag(e.attrs, fi.tpe),
                                value: ValueView::Access(
                                    AccessView { target: Box::new(tt), field: a.field },
                                ),
                            },
                            fi,
                        ),
                    ),
                }
            },
        },
        ValueView::App(a) => match spec_type_exprs(reg, d, a.args) {
            Err(er) => Err(er),
            Ok((tas, _infos)) => Ok(
                (
                    ExprView {
                        attrs: retag(e.attrs, Type::Unspecified),
                        value: ValueView::App(AppView { func: a.func, args: tas }),
                    },
                    scalar(Type::Unspecified),
                ),
            ),
        },
        ValueView::Binary(b) => match spec_type_expr(reg, d, *b.lhs) {
            Err(er) => Err(er),
            Ok((tl, li)) => match spec_type_expr(reg, d, *b.rhs) {
                Err(er) => Err(er),
                Ok((tr, _ri)) => Ok(
                    (
                        ExprView {
                            attrs: retag(e.attrs, li.tpe),
                            value: ValueView::Binary(
                                BinaryView {
                                    lhs: Box::new(tl),
                                    operator: b.operator,
                                    rhs: Box::new(tr),
                                },
                            ),
                        },
                        li,
                    ),
                ),
            },
        },
        ValueView::Unary(u) => match spec_type_expr(reg, d, *u.expr) {
            Err(er) => Err(er),
            Ok((te, ti)) => Ok(
                (
                    ExprView {
                        attrs: retag(e.attrs, ti.tpe),
                        value: ValueView::Unary(
                            UnaryView { operator: u.operator, expr: Box::new(te) },
                        ),
                    },
                    ti,
                ),
            ),
        },
        ValueView::Group(g) => match spec_type_expr(reg, d, *g) {
            Err(er) => Err(er),
            Ok((tg, ti)) => Ok(
                (
                    ExprView { attrs: retag(e.attrs, ti.tpe), value: ValueView::Group(Box::new(tg)) },
                    ti,
                ),
            ),
        },
    }
}

/// Left-to-right typing of an expression sequence; the first failure is
/// the result.
pub open spec fn spec_type_exprs(
    reg: Seq<Seq<(Seq<char>, TypeInfoView)>>,
    d: int,
    es: Seq<ExprView>,
) -> Result<(Seq<ExprView>, Seq<TypeInfoView>), AnalysisErrorView>
    decreases es, 1int,
{
    if es.len() == 0 {
        Ok((seq![], seq![]))
    } else {
        match spec_type_expr(reg, d, es[0]) {
            Err(er) => Err(er),
            Ok((te, ti)) => match spec_type_exprs(reg, d, es.subrange(1, es.len() as int)) {
                Err(er) => Err(er),
                Ok((tes, tis)) => Ok((seq![te] + tes, seq![ti] + tis)),
            },
        }
    }
}

/// Left-to-right typing of record fields: the typed fields, and one
/// property per field.
pub open spec fn spec_type_fields(
    reg: Seq<Seq<(Seq<char>, TypeInfoView)>>,
    d: int,
    fs: Seq<FieldView>,
) -> Result<(Seq<FieldView>, Seq<(Seq<char>, TypeInfoView)>), AnalysisErrorView>
    decreases fs, 1int,
{
    if fs.len() == 0 {
        Ok((seq![], seq![]))
    } else {
        match spec_type_expr(reg, d, fs[0].value) {
            Err(er) => Err(er),
            Ok((tv, ti)) => match spec_type_fields(reg, d, fs.subrange(1, fs.len() as int)) {
                Err(er) => Err(er),
                Ok((tfs, props)) => Ok(
                    (
                        seq![FieldView { name: fs[0].name, value: tv }] + tfs,
                        seq![(fs[0].name, ti)] + props,
                    ),
                ),
            },
        }
    }
}

/// Typing of an optional clause expression.
pub open spec fn spec_type_opt(
    reg: Seq<Seq<(Seq<char>, TypeInfoView)>>,
    d: int,
    o: Option<ExprView>,
) -> Result<Option<ExprView>, AnalysisErrorView>
    decreases o, 1int,
{
    match o {
        None => Ok(None),
        Some(e) => match spec_type_expr(reg, d, e) {
            Err(er) => Err(er),
            Ok((te, _ti)) => Ok(Some(te)),
        },
    }
}

/// One source: its kind is resolved (`events` and subjects take the
/// configured event shape; a subquery is analyzed first and contributes
/// its projection's shape), and the binding is added to the scope at
/// index `child` — unless that scope already holds the name, which is
/// the duplicate-binding error, reported at the second occurrence.
pub open spec fn spec_an_source(
    opts: OptionsView,
    reg: Seq<Seq<(Seq<char>, TypeInfoView)>>,
    child: int,
    s: SourceView,
) -> Result<(SourceView, Seq<Seq<(Seq<char>, TypeInfoView)>>), AnalysisErrorView>
    decreases s, 3int,
{
    let resolved: Result<
        (SourceKindView, TypeInfoView, Seq<Seq<(Seq<char>, TypeInfoView)>>),
        AnalysisErrorView,
    > = match s.kind {
        SourceKindView::Events => Ok((SourceKindView::Events, opts.event_type_info, reg)),
        SourceKindView::Subject(n) => Ok((SourceKindView::Subject(n), opts.event_type_info, reg)),
        SourceKindView::Subquery(q) => match spec_an_query(opts, reg, child, *q) {
            Err(er) => Err(er),
            Ok((tq, ti, reg2)) => Ok((SourceKindView::Subquery(Box::new(tq)), ti, reg2)),
        },
    };
    match resolved {
        Err(er) => Err(er),
        Ok((kv, info, reg2)) => if !(0 <= child < reg2.len()) {
            // unreachable for the registries the analyzer builds
            Err(AnalysisErrorView::NotARecord(0, 0))
        } else {
            match scope_find(reg2[child], s.binding) {
                Some(_) => Err(
                    AnalysisErrorView::BindingAlreadyExists(s.pos.line, s.pos.col, s.binding),
                ),
                None => Ok(
                    (
                        SourceView { binding: s.binding, pos: s.pos, kind: kv },
                        reg2.update(child, reg2[child].push((s.binding, info))),
                    ),
                ),
            }
        },
    }
}

/// The sources of one query, in declaration order, each seeing the
/// registry as its predecessors left it.
pub open spec fn spec_an_sources(
    opts: OptionsView,
    reg: Seq<Seq<(Seq<char>, TypeInfoView)>>,
    child: int,
    ss: Seq<SourceView>,
) -> Result<(Seq<SourceView>, Seq<Seq<(Seq<char>, TypeInfoView)>>), AnalysisErrorView>
    decreases ss, 4int,
{
    if ss.len() == 0 {
        Ok((seq![], reg))
    } else {
        match spec_an_source(opts, reg, child, ss[0]) {
            Err(er) => Err(er),
            Ok((ts0, reg2)) => match spec_an_sources(opts, reg2, child, ss.subrange(1, ss.len() as int)) {
                Err(er) => Err(er),
                Ok((rest, reg3)) => Ok((seq![ts0] + rest, reg3)),
            },
        }
    }
}

/// One query, whose parent scope sits at index `d`: a scope entry for
/// the query's own id is allocated (or reused, for a sibling at the same
/// depth), the sources are registered in order, and the clause
/// expressions are typed in the new scope. The query's own shape is its
/// projection's, which an enclosing query uses for a subquery source.
pub open spec fn spec_an_query(
    opts: OptionsView,
    reg: Seq<Seq<(Seq<char>, TypeInfoView)>>,
    d: int,
    q: QueryView,
) -> Result<
    (QueryView, TypeInfoView, Seq<Seq<(Seq<char>, TypeInfoView)>>),
    AnalysisErrorView,
>
    decreases q, 5int,
{
    let child = d + 1;
    let reg1 = if reg.len() <= child {
        reg.push(seq![])
    } else {
        reg
    };
    match spec_an_sources(opts, reg1, child, q.sources) {
        Err(er) => Err(er),
        Ok((tsrcs, reg2)) => match spec_type_opt(reg2, child, q.predicate) {
            Err(er) => Err(er),
            Ok(tpred) => match spec_type_opt(reg2, child, q.group_by) {
                Err(er) => Err(er),
                Ok(tgrp) => {
                    let tord: Result<Option<OrderByView>, AnalysisErrorView> = match q.order_by {
                        None => Ok(None),
                        Some(ob) => match spec_type_expr(reg2, child, ob.expr) {
                            Err(er) => Err(er),
                            Ok((te, _ti)) => Ok(Some(OrderByView { expr: te, order: ob.order })),
                        },
                    };
                    match tord {
                        Err(er) => Err(er),
                        Ok(tob) => match spec_type_expr(reg2, child, *q.projection) {
                            Err(er) => Err(er),
                            Ok((tp, pinfo)) => Ok(
                                (
                                    QueryView {
                                        attrs: retag(q.attrs, pinfo.tpe),
                                        sources: tsrcs,
                                        predicate: tpred,
                                        group_by: tgrp,
                                        order_by: tob,
                                        limit: q.limit,
                                        projection: Box::new(tp),
                                    },
                                    pinfo,
                                    reg2,
                                ),
                            ),
                        },
                    }
                },
            },
        },
    }
}

/// Whole-program analysis: the root scope is the configured default
/// (index 0, scope id 1), and the query is analyzed under it.
pub open spec fn spec_static_analysis(opts: OptionsView, q: QueryView) -> Result<
    QueryView,
    AnalysisErrorView,
> {
    match spec_an_query(opts, seq![opts.default_scope], 0, q) {
        Err(er) => Err(er),
        Ok((tq, _ti, _reg)) => Ok(tq),
    }
}

/// Analysis depends only on a raw tree's structure: two raw trees with
/// the same model — as fresh parses of one text always are — analyze,
/// under one configuration, to the same outcome, typed tree and error
/// alike. Together with `static_analysis` being proved equal to the
/// pure function `spec_static_analysis`, running the analyzer twice on
/// structurally identical input cannot differ. For trees that agree only
/// up to source positions, see `lemma_analysis_position_independent`.
pub proof fn lemma_analysis_input_independent(opts: AnalysisOptions, q1: Query, q2: Query)
    requires
        query_view(q1) == query_view(q2),
    ensures
        spec_static_analysis(opts_view(opts), query_view(q1)) == spec_static_analysis(
            opts_view(opts),
            query_view(q2),
        ),
{
}

impl TypeInfo {
    /// A copy with the same model.
    pub fn dup(&self) -> (r: TypeInfo)
        ensures
            ti_view(r) == ti_view(*self),
        decreases *self,
    {
        let mut props: Vec<(String, TypeInfo)> = Vec::new();
        let n = self.props.len();
        let mut i: usize = 0;
        while i < n
            invariant
                0 <= i <= n,
                n == self.props@.len(),
                props@.len() == i,
                forall|k: int|
                    0 <= k < i ==> (#[trigger] props@[k]).0@ == self.props@[k].0@ && ti_view(
                        props@[k].1,
                    ) == ti_view(self.props@[k].1),
            decreases n - i,
        {
            let p = &self.props[i];
            proof {
                assert(decreases_to!(*self => self.props@[i as int].1));
            }
            props.push((p.0.clone(), p.1.dup()));
            i = i + 1;
        }
        let r = TypeInfo { tpe: self.tpe, props };
        proof {
            assert(ti_view(r).props =~= ti_view(*self).props);
        }
        r
    }
}

impl Scope {
    /// A copy with the same model.
    pub fn dup(&self) -> (r: Scope)
        ensures
            scope_view(r) == scope_view(*self),
    {
        let mut entries: Vec<(String, TypeInfo)> = Vec::new();
        let n = self.entries.len();
        let mut i: usize = 0;
        while i < n
            invariant
                0 <= i <= n,
                n == self.entries@.len(),
                entries@.len() == i,
                forall|k: int|
                    0 <= k < i ==> (#[trigger] entries@[k]).0@ == self.entries@[k].0@ && ti_view(
                        entries@[k].1,
                    ) == ti_view(self.entries@[k].1),
            decreases n - i,
        {
            let p = &self.entries[i];
            entries.push((p.0.clone(), p.1.dup()));
            i = i + 1;
        }
        let r = Scope { entries };
        proof {
            assert(scope_view(r) =~= scope_view(*self));
        }
        r
    }
}

/// A scalar shape.
fn scalar_info(tpe: Type) -> (r: TypeInfo)
    ensures
        ti_view(r) == scalar(tpe),
{
    let r = TypeInfo { tpe, props: Vec::new() };
    proof {
        assert(ti_view(r).props =~= scalar(tpe).props);
    }
    r
}

/// The synthetic element-shape property name, as an owned string.
fn make_elem_key() -> (r: String)
    ensures
        r@ == elem_key(),
{
    proof {
        reveal_strlit("element");
    }
    let r = "element".to_owned();
    proof {
        assert(r@ =~= elem_key());
    }
    r
}

/// The first entry bearing `name` in a scope's entries, copied out.
fn find_entry(entries: &Vec<(String, TypeInfo)>, name: &String) -> (r: Option<TypeInfo>)
    ensures
        match (r, scope_find(entries_view(entries@), name@)) {
            (Some(ti), Some(tv)) => ti_view(ti) == tv,
            (None, None) => true,
            _ => false,
        },
{
    let n = entries.len();
    let mut i: usize = 0;
    while i < n
        invariant
            0 <= i <= n,
            n == entries@.len(),
            scope_find(entries_view(entries@), name@) == scope_find_from(
                entries_view(entries@),
                i as int,
                name@,
            ),
        decreases n - i,
    {
        let p = &entries[i];
        if p.0 == *name {
            return Some(p.1.dup());
        }
        i = i + 1;
    }
    None
}

/// One analysis run: the configuration it was given, and the scopes it
/// has built so far.
pub struct Analysis<'a> {
    pub options: &'a AnalysisOptions,
    pub registry: TypeRegistry,
}

impl<'a> Analysis<'a> {
    /// A fresh run: the registry holds only the configured root scope.
    pub fn new(options: &'a AnalysisOptions) -> (a: Analysis<'a>)
        ensures
            a.options == options,
            registry_view(a.registry) == seq![scope_view(options.default_scope)],
    {
        let mut scopes: Vec<Scope> = Vec::new();
        scopes.push(options.default_scope.dup());
        let registry = TypeRegistry { scopes };
        proof {
            assert(registry_view(registry) =~= seq![scope_view(options.default_scope)]);
        }
        Analysis { options, registry }
    }

    /// Identifier lookup in the scope at index `d`, falling back to the
    /// root scope only; see `lookup_visible` for why nothing in between
    /// may be consulted.
    fn lookup(&self, d: usize, name: &String) -> (r: Option<TypeInfo>)
        requires
            d < self.registry.scopes@.len(),
        ensures
            match (r, lookup_visible(registry_view(self.registry), d as int, name@)) {
                (Some(ti), Some(tv)) => ti_view(ti) == tv,
                (None, None) => true,
                _ => false,
            },
    {
        let sc = &self.registry.scopes[d];
        match find_entry(&sc.entries, name) {
            Some(ti) => Some(ti),
            None => {
                if d == 0 {
                    None
                } else {
                    let root = &self.registry.scopes[0];
                    find_entry(&root.entries, name)
                }
            },
        }
    }

    /// Type one expression; see `spec_type_expr`.
    #[verifier::rlimit(100)]
    #[verifier::spinoff_prover]
    fn type_expr(&self, d: usize, e: Expr) -> (r: Result<(TypedExpr, TypeInfo), AnalysisError>)
        requires
            d < self.registry.scopes@.len(),
        ensures
            match (r, spec_type_expr(registry_view(self.registry), d as int, expr_view(e))) {
                (Ok((te, info)), Ok((tev, iv))) => typed_expr_view(te) == tev && ti_view(info)
                    == iv,
                (Err(a), Err(b)) => a@ == b,
                _ => false,
            },
        decreases e, 0int,
    {
        let at = e.attrs;
        match e.value {
            Value::Number(n) => Ok(
                (
                    TypedExpr {
                        attrs: Attrs { pos: at.pos, scope: at.scope, tpe: Type::Number },
                        value: TypedValue::Number(n),
                    },
                    scalar_info(Type::Number),
                ),
            ),
            Value::String(s) => Ok(
                (
                    TypedExpr {
                        attrs: Attrs { pos: at.pos, scope: at.scope, tpe: Type::String },
                        value: TypedValue::String(s),
                    },
                    scalar_info(Type::String),
                ),
            ),
            Value::Bool(b) => Ok(
                (
                    TypedExpr {
                        attrs: Attrs { pos: at.pos, scope: at.scope, tpe: Type::Bool },
                        value: TypedValue::Bool(b),
                    },
                    scalar_info(Type::Bool),
                ),
            ),
            Value::Id(n) => match self.lookup(d, &n) {
                Some(info) => {
                    let tpe = info.tpe;
                    Ok(
                        (
                            TypedExpr {
                                attrs: Attrs { pos: at.pos, scope: at.scope, tpe },
                                value: TypedValue::Id(n),
                            },
                            info,
                        ),
                    )
                },
                None => Err(AnalysisError::UnresolvedIdentifier(at.pos.line, at.pos.col, n)),
            },
            Value::Array(es) => {
                let ghost esv = es@;
                let mut tes: Vec<TypedExpr> = Vec::new();
                let mut tis: Vec<TypeInfo> = Vec::new();
                match self.type_exprs_into(d, es, &mut tes, &mut tis) {
                    Ok(()) => {},
                    Err(er) => {
                        return Err(er);
                    },
                }
                proof {
                    if let Ok((tesv, tisv)) = spec_type_exprs(
                        registry_view(self.registry),
                        d as int,
                        exprs_view(esv),
                    ) {
                        assert(typed_exprs_view(Seq::<TypedExpr>::empty()) =~= Seq::<
                            ExprView,
                        >::empty());
                        assert(infos_view(Seq::<TypeInfo>::empty()) =~= Seq::<
                            TypeInfoView,
                        >::empty());
                        assert(Seq::<ExprView>::empty() + tesv =~= tesv);
                        assert(Seq::<TypeInfoView>::empty() + tisv =~= tisv);
                    }
                }
                let info = if tis.len() == 0 {
                    let r0 = TypeInfo { tpe: Type::Array, props: Vec::new() };
                    proof {
                        assert(ti_view(r0).props =~= Seq::<(Seq<char>, TypeInfoView)>::empty());
                        assert(Seq::<(Seq<char>, TypeInfoView)>::empty() =~= seq![]);
                    }
                    r0
                } else {
                    let ghost tis0 = tis@;
                    let first = tis.remove(0);
                    proof {
                        assert(ti_view(first) == infos_view(tis0)[0]);
                    }
                    let mut props: Vec<(String, TypeInfo)> = Vec::new();
                    let ghost firstv = ti_view(first);
                    props.push((make_elem_key(), first));
                    let r0 = TypeInfo { tpe: Type::Array, props };
                    proof {
                        assert(ti_view(r0).props =~= seq![(elem_key(), firstv)]);
                    }
                    r0
                };
                Ok(
                    (
                        TypedExpr {
                            attrs: Attrs { pos: at.pos, scope: at.scope, tpe: Type::Array },
                            value: TypedValue::Array(tes),
                        },
                        info,
                    ),
                )
            },
            Value::Record(fs) => {
                let ghost fsv = fs@;
                let mut tfs: Vec<TypedField> = Vec::new();
                let mut props: Vec<(String, TypeInfo)> = Vec::new();
                match self.type_fields_into(d, fs, &mut tfs, &mut props) {
                    Ok(()) => {},
                    Err(er) => {
                        return Err(er);
                    },
                }
                proof {
                    if let Ok((tfsv, propsv)) = spec_type_fields(
                        registry_view(self.registry),
                        d as int,
                        fields_view(fsv),
                    ) {
                        assert(typed_fields_view(Seq::<TypedField>::empty()) =~= Seq::<
                            FieldView,
                        >::empty());
                        assert(entries_view(Seq::<(String, TypeInfo)>::empty()) =~= Seq::<
                            (Seq<char>, TypeInfoView),
                        >::empty());
                        assert(Seq::<FieldView>::empty() + tfsv =~= tfsv);
                        assert(Seq::<(Seq<char>, TypeInfoView)>::empty() + propsv =~= propsv);
                    }
                }
                Ok(
                    (
                        TypedExpr {
                            attrs: Attrs { pos: at.pos, scope: at.scope, tpe: Type::Record },
                            value: TypedValue::Record(tfs),
                        },
                        TypeInfo { tpe: Type::Record, props },
                    ),
                )
            },
            Value::Access(a) => {
                let Access { target, field } = a;
                match self.type_expr(d, *target) {
                    Err(er) => Err(er),
                    Ok((tt, ti)) => {
                        if !matches!(ti.tpe, Type::Record) {
                            Err(AnalysisError::NotARecord(at.pos.line, at.pos.col))
                        } else {
                            match find_entry(&ti.props, &field) {
                                None => Err(
                                    AnalysisError::UnknownField(at.pos.line, at.pos.col, field),
                                ),
                                Some(fi) => {
                                    let tpe = fi.tpe;
                                    Ok(
                                        (
                                            TypedExpr {
                                                attrs: Attrs { pos: at.pos, scope: at.scope, tpe },
                                                value: TypedValue::Access(
                                                    TypedAccess { target: Box::new(tt), field },
                                                ),
                                            },
                                            fi,
                                        ),
                                    )
                                },
                            }
                        }
                    },
                }
            },
            Value::App(a) => {
                let App { func, args } = a;
                let ghost argsv = args@;
                let mut tas: Vec<TypedExpr> = Vec::new();
                let mut tis: Vec<TypeInfo> = Vec::new();
                match self.type_exprs_into(d, args, &mut tas, &mut tis) {
                    Ok(()) => {},
                    Err(er) => {
                        return Err(er);
                    },
                }
                proof {
                    if let Ok((tasv, tisv)) = spec_type_exprs(
                        registry_view(self.registry),
                        d as int,
                        exprs_view(argsv),
                    ) {
                        assert(typed_exprs_view(Seq::<TypedExpr>::empty()) =~= Seq::<
                            ExprView,
                        >::empty());
                        assert(infos_view(Seq::<TypeInfo>::empty()) =~= Seq::<
                            TypeInfoView,
                        >::empty());
                        assert(Seq::<ExprView>::empty() + tasv =~= tasv);
                        assert(Seq::<TypeInfoView>::empty() + tisv =~= tisv);
                    }
                }
                Ok(
                    (
                        TypedExpr {
                            attrs: Attrs { pos: at.pos, scope: at.scope, tpe: Type::Unspecified },
                            value: TypedValue::App(TypedApp { func, args: tas }),
                        },
                        scalar_info(Type::Unspecified),
                    ),
                )
            },
            Value::Binary(b) => {
                let Binary { lhs, operator, rhs } = b;
                match self.type_expr(d, *lhs) {
                    Err(er) => Err(er),
                    Ok((tl, li)) => match self.type_expr(d, *rhs) {
                        Err(er) => Err(er),
                        Ok((tr, _ri)) => {
                            let tpe = li.tpe;
                            Ok(
                                (
                                    TypedExpr {
                                        attrs: Attrs { pos: at.pos, scope: at.scope, tpe },
                                        value: TypedValue::Binary(
                                            TypedBinary {
                                                lhs: Box::new(tl),
                                                operator,
                                                rhs: Box::new(tr),
                                            },
                                        ),
                                    },
                                    li,
                                ),
                            )
                        },
                    },
                }
            },
            Value::Unary(u) => {
                let Unary { operator, expr } = u;
                match self.type_expr(d, *expr) {
                    Err(er) => Err(er),
                    Ok((te, ti)) => {
                        let tpe = ti.tpe;
                        Ok(
                            (
                                TypedExpr {
                                    attrs: Attrs { pos: at.pos, scope: at.scope, tpe },
                                    value: TypedValue::Unary(
                                        TypedUnary { operator, expr: Box::new(te) },
                                    ),
                                },
                                ti,
                            ),
                        )
                    },
                }
            },
            Value::Group(g) => match self.type_expr(d, *g) {
                Err(er) => Err(er),
                Ok((tg, ti)) => {
                    let tpe = ti.tpe;
                    Ok(
                        (
                            TypedExpr {
                                attrs: Attrs { pos: at.pos, scope: at.scope, tpe },
                                value: TypedValue::Group(Box::new(tg)),
                            },
                            ti,
                        ),
                    )
                },
            },
        }
    }

    /// Type a sequence of expressions left to right, appending the typed
    /// nodes and their shapes; see `spec_type_exprs`.
    fn type_exprs_into(
        &self,
        d: usize,
        es: Vec<Expr>,
        out_e: &mut Vec<TypedExpr>,
        out_i: &mut Vec<TypeInfo>,
    ) -> (r: Result<(), AnalysisError>)
        requires
            d < self.registry.scopes@.len(),
        ensures
            match (r, spec_type_exprs(registry_view(self.registry), d as int, exprs_view(es@))) {
                (Ok(()), Ok((tesv, tisv))) => typed_exprs_view(final(out_e)@) == typed_exprs_view(
                    old(out_e)@,
                ) + tesv && infos_view(final(out_i)@) == infos_view(old(out_i)@) + tisv,
                (Err(a), Err(b)) => a@ == b,
                _ => false,
            },
        decreases es@, 1int,
    {
        let ghost es0 = es@;
        if es.is_empty() {
            proof {
                assert(typed_exprs_view(out_e@) + Seq::<ExprView>::empty() =~= typed_exprs_view(
                    out_e@,
                ));
                assert(infos_view(out_i@) + Seq::<TypeInfoView>::empty() =~= infos_view(out_i@));
                assert(Seq::<ExprView>::empty() =~= seq![]);
                assert(Seq::<TypeInfoView>::empty() =~= seq![]);
            }
            return Ok(());
        }
        let mut es = es;
        let first = es.remove(0);
        proof {
            assert(es@ =~= es0.subrange(1, es0.len() as int));
            assert(exprs_view(es@) =~= exprs_view(es0).subrange(1, es0.len() as int));
            assert(exprs_view(es0)[0] == expr_view(first));
        }
        let (te, ti) = match self.type_expr(d, first) {
            Ok(p) => p,
            Err(er) => {
                return Err(er);
            },
        };
        let ghost mid_e = out_e@;
        let ghost mid_i = out_i@;
        out_e.push(te);
        out_i.push(ti);
        proof {
            assert(typed_exprs_view(out_e@) =~= typed_exprs_view(mid_e).push(typed_expr_view(te)));
            assert(infos_view(out_i@) =~= infos_view(mid_i).push(ti_view(ti)));
        }
        let r = self.type_exprs_into(d, es, out_e, out_i);
        proof {
            if let Ok(()) = r {
                if let Ok((tesv, tisv)) = spec_type_exprs(
                    registry_view(self.registry),
                    d as int,
                    exprs_view(es0),
                ) {
                    assert(typed_exprs_view(mid_e) + tesv =~= typed_exprs_view(mid_e).push(
                        typed_expr_view(te),
                    ) + tesv.subrange(1, tesv.len() as int));
                }
            }
        }
        r
    }

    /// Type record fields left to right, appending the typed fields and
    /// their properties; see `spec_type_fields`.
    fn type_fields_into(
        &self,
        d: usize,
        fs: Vec<Field>,
        out_f: &mut Vec<TypedField>,
        out_p: &mut Vec<(String, TypeInfo)>,
    ) -> (r: Result<(), AnalysisError>)
        requires
            d < self.registry.scopes@.len(),
        ensures
            match (r, spec_type_fields(registry_view(self.registry), d as int, fields_view(fs@))) {
                (Ok(()), Ok((tfsv, propsv))) => typed_fields_view(final(out_f)@)
                    == typed_fields_view(old(out_f)@) + tfsv && entries_view(final(out_p)@)
                    == entries_view(old(out_p)@) + propsv,
                (Err(a), Err(b)) => a@ == b,
                _ => false,
            },
        decreases fs@, 1int,
    {
        let ghost fs0 = fs@;
        if fs.is_empty() {
            proof {
                assert(typed_fields_view(out_f@) + Seq::<FieldView>::empty() =~= typed_fields_view(
                    out_f@,
                ));
                assert(entries_view(out_p@) + Seq::<(Seq<char>, TypeInfoView)>::empty()
                    =~= entries_view(out_p@));
                assert(Seq::<FieldView>::empty() =~= seq![]);
                assert(Seq::<(Seq<char>, TypeInfoView)>::empty() =~= seq![]);
            }
            return Ok(());
        }
        let mut fs = fs;
        let first = fs.remove(0);
        let Field { name, value } = first;
        proof {
            assert(fs@ =~= fs0.subrange(1, fs0.len() as int));
            assert(fields_view(fs@) =~= fields_view(fs0).subrange(1, fs0.len() as int));
            assert(fields_view(fs0)[0] == (FieldView { name: name@, value: expr_view(value) }));
        }
        let (tv, ti) = match self.type_expr(d, value) {
            Ok(p) => p,
            Err(er) => {
                return Err(er);
            },
        };
        let name2 = name.clone();
        let ghost mid_f = out_f@;
        let ghost mid_p = out_p@;
        out_f.push(TypedField { name, value: tv });
        out_p.push((name2, ti));
        proof {
            assert(typed_fields_view(out_f@) =~= typed_fields_view(mid_f).push(
                typed_fields_view(out_f@)[mid_f.len() as int],
            ));
            assert(entries_view(out_p@) =~= entries_view(mid_p).push(
                entries_view(out_p@)[mid_p.len() as int],
            ));
        }
        let r = self.type_fields_into(d, fs, out_f, out_p);
        proof {
            if let Ok(()) = r {
                if let Ok((tfsv, propsv)) = spec_type_fields(
                    registry_view(self.registry),
                    d as int,
                    fields_view(fs0),
                ) {
                    assert(typed_fields_view(mid_f) + tfsv =~= typed_fields_view(mid_f).push(
                        tfsv[0],
                    ) + tfsv.subrange(1, tfsv.len() as int));
                    assert(entries_view(mid_p) + propsv =~= entries_view(mid_p).push(propsv[0])
                        + propsv.subrange(1, propsv.len() as int));
                }
            }
        }
        r
    }

    /// Type an optional clause expression; see `spec_type_opt`.
    fn type_opt(&self, d: usize, o: Option<Expr>) -> (r: Result<Option<TypedExpr>, AnalysisError>)
        requires
            d < self.registry.scopes@.len(),
        ensures
            match (r, spec_type_opt(registry_view(self.registry), d as int, opt_expr_view(o))) {
                (Ok(None), Ok(None)) => true,
                (Ok(Some(te)), Ok(Some(tev))) => typed_expr_view(te) == tev,
                (Err(a), Err(b)) => a@ == b,
                _ => false,
            },
        decreases o, 1int,
    {
        match o {
            None => Ok(None),
            Some(e) => match self.type_expr(d, e) {
                Err(er) => Err(er),
                Ok((te, _ti)) => Ok(Some(te)),
            },
        }
    }

    /// Analyze one source and register its binding; see `spec_an_source`.
    fn analyze_source(&mut self, child: usize, s: Source) -> (r: Result<TypedSource, AnalysisError>)
        requires
            child < old(self).registry.scopes@.len(),
        ensures
            final(self).options == old(self).options,
            old(self).registry.scopes@.len() <= final(self).registry.scopes@.len(),
            match (
                r,
                spec_an_source(
                    opts_view(*old(self).options),
                    registry_view(old(self).registry),
                    child as int,
                    source_view(s),
                ),
            ) {
                (Ok(ts), Ok((tsv, regv))) => typed_source_view(ts) == tsv && registry_view(
                    final(self).registry,
                ) == regv,
                (Err(a), Err(b)) => a@ == b,
                _ => false,
            },
        decreases s, 3int,
    {
        let Source { binding, pos, kind } = s;
        let resolved: (TypedSourceKind, TypeInfo) = match kind {
            SourceKind::Events => (TypedSourceKind::Events, self.options.event_type_info.dup()),
            SourceKind::Subject(n) => (
                TypedSourceKind::Subject(n),
                self.options.event_type_info.dup(),
            ),
            SourceKind::Subquery(q) => match self.analyze_query(child, *q) {
                Ok((tq, ti)) => (TypedSourceKind::Subquery(Box::new(tq)), ti),
                Err(er) => {
                    return Err(er);
                },
            },
        };
        let (tkind, info) = resolved;
        let dup_found = {
            let sc = &self.registry.scopes[child];
            match find_entry(&sc.entries, &binding) {
                Some(_) => true,
                None => false,
            }
        };
        if dup_found {
            return Err(AnalysisError::BindingAlreadyExists(pos.line, pos.col, binding));
        }
        let binding2 = binding.clone();
        let ghost b2v = binding2@;
        let ghost infov = ti_view(info);
        let ghost reg0 = self.registry;
        let sc = vec_index_mut(&mut self.registry.scopes, child);
        sc.entries.push((binding2, info));
        proof {
            assert(entries_view(self.registry.scopes@[child as int].entries@) =~= entries_view(
                reg0.scopes@[child as int].entries@,
            ).push((b2v, infov)));
            assert(registry_view(self.registry) =~= registry_view(reg0).update(
                child as int,
                scope_view(reg0.scopes@[child as int]).push((b2v, infov)),
            ));
        }
        Ok(TypedSource { binding, pos, kind: tkind })
    }

    /// Analyze the sources of one query in order; see `spec_an_sources`.
    fn analyze_sources_into(
        &mut self,
        child: usize,
        ss: Vec<Source>,
        out: &mut Vec<TypedSource>,
    ) -> (r: Result<(), AnalysisError>)
        requires
            child < old(self).registry.scopes@.len(),
        ensures
            final(self).options == old(self).options,
            old(self).registry.scopes@.len() <= final(self).registry.scopes@.len(),
            match (
                r,
                spec_an_sources(
                    opts_view(*old(self).options),
                    registry_view(old(self).registry),
                    child as int,
                    sources_view(ss@),
                ),
            ) {
                (Ok(()), Ok((tsv, regv))) => typed_sources_view(final(out)@) == typed_sources_view(
                    old(out)@,
                ) + tsv && registry_view(final(self).registry) == regv,
                (Err(a), Err(b)) => a@ == b,
                _ => false,
            },
        decreases ss@, 4int,
    {
        let ghost ss0 = ss@;
        if ss.is_empty() {
            proof {
                assert(typed_sources_view(out@) + Seq::<SourceView>::empty() =~= typed_sources_view(
                    out@,
                ));
                assert(Seq::<SourceView>::empty() =~= seq![]);
            }
            return Ok(());
        }
        let mut ss = ss;
        let first = ss.remove(0);
        proof {
            assert(ss@ =~= ss0.subrange(1, ss0.len() as int));
            assert(sources_view(ss@) =~= sources_view(ss0).subrange(1, ss0.len() as int));
            assert(sources_view(ss0)[0] == source_view(first));
        }
        let ts = match self.analyze_source(child, first) {
            Ok(ts) => ts,
            Err(er) => {
                return Err(er);
            },
        };
        let ghost mid = out@;
        out.push(ts);
        proof {
            assert(typed_sources_view(out@) =~= typed_sources_view(mid).push(
                typed_source_view(ts),
            ));
        }
        let r = self.analyze_sources_into(child, ss, out);
        proof {
            if let Ok(()) = r {
                if let Ok((tsv, _regv)) = spec_an_sources(
                    opts_view(*old(self).options),
                    registry_view(old(self).registry),
                    child as int,
                    sources_view(ss0),
                ) {
                    assert(typed_sources_view(mid) + tsv =~= typed_sources_view(mid).push(tsv[0])
                        + tsv.subrange(1, tsv.len() as int));
                }
            }
        }
        r
    }

    /// Analyze one query whose parent scope sits at index `d`; see
    /// `spec_an_query`. Besides the typed query, the caller receives the
    /// query's own shape: its projection's.
    pub fn analyze_query(&mut self, d: usize, query: Query) -> (r: Result<
        (TypedQuery, TypeInfo),
        AnalysisError,
    >)
        requires
            d < old(self).registry.scopes@.len(),
        ensures
            final(self).options == old(self).options,
            old(self).registry.scopes@.len() <= final(self).registry.scopes@.len(),
            match (
                r,
                spec_an_query(
                    opts_view(*old(self).options),
                    registry_view(old(self).registry),
                    d as int,
                    query_view(query),
                ),
            ) {
                (Ok((tq, info)), Ok((tqv, iv, regv))) => typed_query_view(tq) == tqv && ti_view(
                    info,
                ) == iv && registry_view(final(self).registry) == regv,
                (Err(a), Err(b)) => a@ == b,
                _ => false,
            },
        decreases query, 5int,
    {
        let n = self.registry.scopes.len();
        let child = d + 1;
        if n == child {
            let ghost reg0 = self.registry;
            self.registry.scopes.push(Scope { entries: Vec::new() });
            proof {
                assert(scope_view(self.registry.scopes@[child as int]) =~= Seq::<
                    (Seq<char>, TypeInfoView),
                >::empty());
                assert(Seq::<(Seq<char>, TypeInfoView)>::empty() =~= seq![]);
                assert(registry_view(self.registry) =~= registry_view(reg0).push(seq![]));
            }
        }
        let Query { attrs, sources, predicate, group_by, order_by, limit, projection } = query;
        let mut tsources: Vec<TypedSource> = Vec::new();
        match self.analyze_sources_into(child, sources, &mut tsources) {
            Ok(()) => {},
            Err(er) => {
                return Err(er);
            },
        }
        let tpred = match self.type_opt(child, predicate) {
            Ok(o) => o,
            Err(er) => {
                return Err(er);
            },
        };
        let tgrp = match self.type_opt(child, group_by) {
            Ok(o) => o,
            Err(er) => {
                return Err(er);
            },
        };
        let tord: Option<TypedOrderBy> = match order_by {
            None => None,
            Some(ob) => {
                let OrderBy { expr, order } = ob;
                match self.type_expr(child, expr) {
                    Ok((te, _ti)) => Some(TypedOrderBy { expr: te, order }),
                    Err(er) => {
                        return Err(er);
                    },
                }
            },
        };
        let (tproj, pinfo) = match self.type_expr(child, *projection) {
            Ok(p) => p,
            Err(er) => {
                return Err(er);
            },
        };
        let tpe = pinfo.tpe;
        Ok(
            (
                TypedQuery {
                    attrs: Attrs { pos: attrs.pos, scope: attrs.scope, tpe },
                    sources: tsources,
                    predicate: tpred,
                    group_by: tgrp,
                    order_by: tord,
                    limit,
                    projection: Box::new(tproj),
                },
                pinfo,
            ),
        )
    }
}

/// Analyze a raw query under the given configuration: the result is
/// exactly `spec_static_analysis` of their models — the typed tree, or
/// the first semantic error.
pub fn static_analysis(options: &AnalysisOptions, query: Query) -> (r: Result<
    TypedQuery,
    AnalysisError,
>)
    ensures
        match (r, spec_static_analysis(opts_view(*options), query_view(query))) {
            (Ok(tq), Ok(tqv)) => typed_query_view(tq) == tqv,
            (Err(a), Err(b)) => a@ == b,
            _ => false,
        },
{
    let mut analysis = Analysis::new(options);
    match analysis.analyze_query(0, query) {
        Ok((tq, _info)) => Ok(tq),
        Err(er) => Err(er),
    }
}


/// An analysis error with its position blanked: its kind and its name.
pub open spec fn strip_aerr(e: AnalysisErrorView) -> AnalysisErrorView {
    match e {
        AnalysisErrorView::BindingAlreadyExists(_, _, n) => AnalysisErrorView::BindingAlreadyExists(
            0,
            0,
            n,
        ),
        AnalysisErrorView::UnresolvedIdentifier(_, _, n) => AnalysisErrorView::UnresolvedIdentifier(
            0,
            0,
            n,
        ),
        AnalysisErrorView::UnknownField(_, _, n) => AnalysisErrorView::UnknownField(0, 0, n),
        AnalysisErrorView::NotARecord(_, _) => AnalysisErrorView::NotARecord(0, 0),
    }
}

/// Two whole-analysis outcomes are identical up to position metadata.
pub open spec fn same_analysis_outcome(
    r1: Result<QueryView, AnalysisErrorView>,
    r2: Result<QueryView, AnalysisErrorView>,
) -> bool {
    match (r1, r2) {
        (Ok(t1), Ok(t2)) => strip_query(t1) == strip_query(t2),
        (Err(a), Err(b)) => strip_aerr(a) == strip_aerr(b),
        _ => false,
    }
}

spec fn same_outcome_e(
    r1: Result<(ExprView, TypeInfoView), AnalysisErrorView>,
    r2: Result<(ExprView, TypeInfoView), AnalysisErrorView>,
) -> bool {
    match (r1, r2) {
        (Ok((t1, i1)), Ok((t2, i2))) => strip_expr(t1) == strip_expr(t2) && i1 == i2,
        (Err(a), Err(b)) => strip_aerr(a) == strip_aerr(b),
        _ => false,
    }
}

spec fn same_outcome_es(
    r1: Result<(Seq<ExprView>, Seq<TypeInfoView>), AnalysisErrorView>,
    r2: Result<(Seq<ExprView>, Seq<TypeInfoView>), AnalysisErrorView>,
) -> bool {
    match (r1, r2) {
        (Ok((t1, i1)), Ok((t2, i2))) => strip_exprs(t1) == strip_exprs(t2) && i1 == i2,
        (Err(a), Err(b)) => strip_aerr(a) == strip_aerr(b),
        _ => false,
    }
}

spec fn same_outcome_fs(
    r1: Result<(Seq<FieldView>, Seq<(Seq<char>, TypeInfoView)>), AnalysisErrorView>,
    r2: Result<(Seq<FieldView>, Seq<(Seq<char>, TypeInfoView)>), AnalysisErrorView>,
) -> bool {
    match (r1, r2) {
        (Ok((t1, p1)), Ok((t2, p2))) => strip_fields(t1) == strip_fields(t2) && p1 == p2,
        (Err(a), Err(b)) => strip_aerr(a) == strip_aerr(b),
        _ => false,
    }
}

spec fn same_outcome_opt(
    r1: Result<Option<ExprView>, AnalysisErrorView>,
    r2: Result<Option<ExprView>, AnalysisErrorView>,
) -> bool {
    match (r1, r2) {
        (Ok(o1), Ok(o2)) => match (o1, o2) {
            (Some(t1), Some(t2)) => strip_expr(t1) == strip_expr(t2),
            (None, None) => true,
            _ => false,
        },
        (Err(a), Err(b)) => strip_aerr(a) == strip_aerr(b),
        _ => false,
    }
}

spec fn same_outcome_src(
    r1: Result<(SourceView, Seq<Seq<(Seq<char>, TypeInfoView)>>), AnalysisErrorView>,
    r2: Result<(SourceView, Seq<Seq<(Seq<char>, TypeInfoView)>>), AnalysisErrorView>,
) -> bool {
    match (r1, r2) {
        (Ok((t1, g1)), Ok((t2, g2))) => strip_source(t1) == strip_source(t2) && g1 == g2,
        (Err(a), Err(b)) => strip_aerr(a) == strip_aerr(b),
        _ => false,
    }
}

spec fn same_outcome_srcs(
    r1: Result<(Seq<SourceView>, Seq<Seq<(Seq<char>, TypeInfoView)>>), AnalysisErrorView>,
    r2: Result<(Seq<SourceView>, Seq<Seq<(Seq<char>, TypeInfoView)>>), AnalysisErrorView>,
) -> bool {
    match (r1, r2) {
        (Ok((t1, g1)), Ok((t2, g2))) => strip_sources(t1) == strip_sources(t2) && g1 == g2,
        (Err(a), Err(b)) => strip_aerr(a) == strip_aerr(b),
        _ => false,
    }
}

spec fn same_outcome_q(
    r1: Result<(QueryView, TypeInfoView, Seq<Seq<(Seq<char>, TypeInfoView)>>), AnalysisErrorView>,
    r2: Result<(QueryView, TypeInfoView, Seq<Seq<(Seq<char>, TypeInfoView)>>), AnalysisErrorView>,
) -> bool {
    match (r1, r2) {
        (Ok((t1, i1, g1)), Ok((t2, i2, g2))) => strip_query(t1) == strip_query(t2) && i1 == i2
            && g1 == g2,
        (Err(a), Err(b)) => strip_aerr(a) == strip_aerr(b),
        _ => false,
    }
}

proof fn lemma_strip_exprs_cons(a1: ExprView, r1: Seq<ExprView>, a2: ExprView, r2: Seq<ExprView>)
    requires
        strip_expr(a1) == strip_expr(a2),
        strip_exprs(r1) == strip_exprs(r2),
    ensures
        strip_exprs(seq![a1] + r1) == strip_exprs(seq![a2] + r2),
{
    assert(strip_exprs(r1).len() == r1.len());
    assert(strip_exprs(r2).len() == r2.len());
    assert(r1.len() == r2.len());
    assert forall|k: int| 0 <= k < 1 + r1.len() implies #[trigger] strip_exprs(seq![a1] + r1)[k]
        == strip_exprs(seq![a2] + r2)[k] by {
        if k == 0 {
            assert((seq![a1] + r1)[0] == a1);
            assert((seq![a2] + r2)[0] == a2);
            assert(strip_exprs(seq![a1] + r1)[k] == strip_expr(a1));
            assert(strip_exprs(seq![a2] + r2)[k] == strip_expr(a2));
        } else {
            assert((seq![a1] + r1)[k] == r1[k - 1]);
            assert((seq![a2] + r2)[k] == r2[k - 1]);
            assert(strip_exprs(seq![a1] + r1)[k] == strip_exprs(r1)[k - 1]);
            assert(strip_exprs(seq![a2] + r2)[k] == strip_exprs(r2)[k - 1]);
            assert(strip_exprs(r1)[k - 1] == strip_exprs(r2)[k - 1]);
        }
    }
    assert(strip_exprs(seq![a1] + r1) =~= strip_exprs(seq![a2] + r2));
}

proof fn lemma_strip_fields_cons(a1: FieldView, r1: Seq<FieldView>, a2: FieldView, r2: Seq<FieldView>)
    requires
        a1.name == a2.name,
        strip_expr(a1.value) == strip_expr(a2.value),
        strip_fields(r1) == strip_fields(r2),
    ensures
        strip_fields(seq![a1] + r1) == strip_fields(seq![a2] + r2),
{
    assert(strip_fields(r1).len() == r1.len());
    assert(strip_fields(r2).len() == r2.len());
    assert(r1.len() == r2.len());
    assert forall|k: int| 0 <= k < 1 + r1.len() implies #[trigger] strip_fields(seq![a1] + r1)[k]
        == strip_fields(seq![a2] + r2)[k] by {
        if k == 0 {
            assert((seq![a1] + r1)[0] == a1);
            assert((seq![a2] + r2)[0] == a2);
            assert(strip_fields(seq![a1] + r1)[k] == (FieldView { name: a1.name, value: strip_expr(a1.value) }));
            assert(strip_fields(seq![a2] + r2)[k] == (FieldView { name: a2.name, value: strip_expr(a2.value) }));
        } else {
            assert((seq![a1] + r1)[k] == r1[k - 1]);
            assert((seq![a2] + r2)[k] == r2[k - 1]);
            assert(strip_fields(seq![a1] + r1)[k] == strip_fields(r1)[k - 1]);
            assert(strip_fields(seq![a2] + r2)[k] == strip_fields(r2)[k - 1]);
            assert(strip_fields(r1)[k - 1] == strip_fields(r2)[k - 1]);
        }
    }
    assert(strip_fields(seq![a1] + r1) =~= strip_fields(seq![a2] + r2));
}

proof fn lemma_strip_sources_cons(
    a1: SourceView,
    r1: Seq<SourceView>,
    a2: SourceView,
    r2: Seq<SourceView>,
)
    requires
        strip_source(a1) == strip_source(a2),
        strip_sources(r1) == strip_sources(r2),
    ensures
        strip_sources(seq![a1] + r1) == strip_sources(seq![a2] + r2),
{
    assert(strip_sources(r1).len() == r1.len());
    assert(strip_sources(r2).len() == r2.len());
    assert(r1.len() == r2.len());
    assert forall|k: int| 0 <= k < 1 + r1.len() implies #[trigger] strip_sources(seq![a1] + r1)[k]
        == strip_sources(seq![a2] + r2)[k] by {
        if k == 0 {
            assert((seq![a1] + r1)[0] == a1);
            assert((seq![a2] + r2)[0] == a2);
            assert(strip_sources(seq![a1] + r1)[k] == strip_source(a1));
            assert(strip_sources(seq![a2] + r2)[k] == strip_source(a2));
        } else {
            assert((seq![a1] + r1)[k] == r1[k - 1]);
            assert((seq![a2] + r2)[k] == r2[k - 1]);
            assert(strip_sources(seq![a1] + r1)[k] == strip_sources(r1)[k - 1]);
            assert(strip_sources(seq![a2] + r2)[k] == strip_sources(r2)[k - 1]);
            assert(strip_sources(r1)[k - 1] == strip_sources(r2)[k - 1]);
        }
    }
    assert(strip_sources(seq![a1] + r1) =~= strip_sources(seq![a2] + r2));
}

#[verifier::rlimit(100)]
#[verifier::spinoff_prover]
proof fn lemma_te(reg: Seq<Seq<(Seq<char>, TypeInfoView)>>, d: int, e1: ExprView, e2: ExprView)
    requires
        strip_expr(e1) == strip_expr(e2),
    ensures
        same_outcome_e(spec_type_expr(reg, d, e1), spec_type_expr(reg, d, e2)),
    decreases e1, 0int,
{
    assert(strip_attrs(e1.attrs) == strip_attrs(e2.attrs));
    assert(strip_value(e1.value) == strip_value(e2.value));
    match e1.value {
        ValueView::Number(_) => {
            assert(e2.value is Number);
        },
        ValueView::String(_) => {
            assert(e2.value is String);
        },
        ValueView::Bool(_) => {
            assert(e2.value is Bool);
        },
        ValueView::Id(n1) => {
            assert(e2.value is Id);
            assert(n1 == e2.value->Id_0);
        },
        ValueView::Array(es1) => {
            assert(e2.value is Array);
            let es2 = e2.value->Array_0;
            assert(strip_exprs(es1) == strip_exprs(es2));
            lemma_tes(reg, d, es1, es2);
        },
        ValueView::Record(fs1) => {
            assert(e2.value is Record);
            let fs2 = e2.value->Record_0;
            assert(strip_fields(fs1) == strip_fields(fs2));
            lemma_tfs(reg, d, fs1, fs2);
        },
        ValueView::Access(a1) => {
            assert(e2.value is Access);
            let a2 = e2.value->Access_0;
            assert(strip_expr(*a1.target) == strip_expr(*a2.target));
            assert(a1.field == a2.field);
            lemma_te(reg, d, *a1.target, *a2.target);
        },
        ValueView::App(a1) => {
            assert(e2.value is App);
            let a2 = e2.value->App_0;
            assert(a1.func == a2.func);
            assert(strip_exprs(a1.args) == strip_exprs(a2.args));
            lemma_tes(reg, d, a1.args, a2.args);
        },
        ValueView::Binary(b1) => {
            assert(e2.value is Binary);
            let b2 = e2.value->Binary_0;
            assert(strip_expr(*b1.lhs) == strip_expr(*b2.lhs));
            assert(strip_expr(*b1.rhs) == strip_expr(*b2.rhs));
            assert(b1.operator == b2.operator);
            lemma_te(reg, d, *b1.lhs, *b2.lhs);
            lemma_te(reg, d, *b1.rhs, *b2.rhs);
        },
        ValueView::Unary(u1) => {
            assert(e2.value is Unary);
            let u2 = e2.value->Unary_0;
            assert(strip_expr(*u1.expr) == strip_expr(*u2.expr));
            assert(u1.operator == u2.operator);
            lemma_te(reg, d, *u1.expr, *u2.expr);
        },
        ValueView::Group(g1) => {
            assert(e2.value is Group);
            let g2 = e2.value->Group_0;
            assert(strip_expr(*g1) == strip_expr(*g2));
            lemma_te(reg, d, *g1, *g2);
        },
    }
}

proof fn lemma_tes(
    reg: Seq<Seq<(Seq<char>, TypeInfoView)>>,
    d: int,
    es1: Seq<ExprView>,
    es2: Seq<ExprView>,
)
    requires
        strip_exprs(es1) == strip_exprs(es2),
    ensures
        same_outcome_es(spec_type_exprs(reg, d, es1), spec_type_exprs(reg, d, es2)),
    decreases es1, 1int,
{
    assert(strip_exprs(es1).len() == es1.len());
    assert(strip_exprs(es2).len() == es2.len());
    assert(es1.len() == es2.len());
    if es1.len() > 0 {
        assert(strip_exprs(es1)[0] == strip_expr(es1[0]));
        assert(strip_exprs(es2)[0] == strip_expr(es2[0]));
        lemma_te(reg, d, es1[0], es2[0]);
        let r1 = es1.subrange(1, es1.len() as int);
        let r2 = es2.subrange(1, es2.len() as int);
        assert(strip_exprs(r1) =~= strip_exprs(es1).subrange(1, es1.len() as int));
        assert(strip_exprs(r2) =~= strip_exprs(es2).subrange(1, es2.len() as int));
        lemma_tes(reg, d, r1, r2);
        match (spec_type_expr(reg, d, es1[0]), spec_type_expr(reg, d, es2[0])) {
            (Ok((te1, ti1)), Ok((te2, ti2))) => {
                match (spec_type_exprs(reg, d, r1), spec_type_exprs(reg, d, r2)) {
                    (Ok((ts1, is1)), Ok((ts2, is2))) => {
                        lemma_strip_exprs_cons(te1, ts1, te2, ts2);
                    },
                    _ => {},
                }
            },
            _ => {},
        }
    }
}

proof fn lemma_tfs(
    reg: Seq<Seq<(Seq<char>, TypeInfoView)>>,
    d: int,
    fs1: Seq<FieldView>,
    fs2: Seq<FieldView>,
)
    requires
        strip_fields(fs1) == strip_fields(fs2),
    ensures
        same_outcome_fs(spec_type_fields(reg, d, fs1), spec_type_fields(reg, d, fs2)),
    decreases fs1, 1int,
{
    assert(strip_fields(fs1).len() == fs1.len());
    assert(strip_fields(fs2).len() == fs2.len());
    assert(fs1.len() == fs2.len());
    if fs1.len() > 0 {
        assert(strip_fields(fs1)[0] == (FieldView {
            name: fs1[0].name,
            value: strip_expr(fs1[0].value),
        }));
        assert(strip_fields(fs2)[0] == (FieldView {
            name: fs2[0].name,
            value: strip_expr(fs2[0].value),
        }));
        assert(fs1[0].name == fs2[0].name);
        assert(strip_expr(fs1[0].value) == strip_expr(fs2[0].value));
        lemma_te(reg, d, fs1[0].value, fs2[0].value);
        let r1 = fs1.subrange(1, fs1.len() as int);
        let r2 = fs2.subrange(1, fs2.len() as int);
        assert(strip_fields(r1) =~= strip_fields(fs1).subrange(1, fs1.len() as int));
        assert(strip_fields(r2) =~= strip_fields(fs2).subrange(1, fs2.len() as int));
        lemma_tfs(reg, d, r1, r2);
        match (spec_type_expr(reg, d, fs1[0].value), spec_type_expr(reg, d, fs2[0].value)) {
            (Ok((tv1, ti1)), Ok((tv2, ti2))) => {
                match (spec_type_fields(reg, d, r1), spec_type_fields(reg, d, r2)) {
                    (Ok((ts1, ps1)), Ok((ts2, ps2))) => {
                        lemma_strip_fields_cons(
                            FieldView { name: fs1[0].name, value: tv1 },
                            ts1,
                            FieldView { name: fs2[0].name, value: tv2 },
                            ts2,
                        );
                    },
                    _ => {},
                }
            },
            _ => {},
        }
    }
}

proof fn lemma_topt(
    reg: Seq<Seq<(Seq<char>, TypeInfoView)>>,
    d: int,
    o1: Option<ExprView>,
    o2: Option<ExprView>,
)
    requires
        strip_opt_expr(o1) == strip_opt_expr(o2),
    ensures
        same_outcome_opt(spec_type_opt(reg, d, o1), spec_type_opt(reg, d, o2)),
    decreases o1, 1int,
{
    match (o1, o2) {
        (Some(a), Some(b)) => {
            assert(strip_expr(a) == strip_expr(b));
            lemma_te(reg, d, a, b);
        },
        (None, None) => {},
        (Some(a), None) => {
            assert(strip_opt_expr(o1) is Some);
            assert(strip_opt_expr(o2) is None);
        },
        (None, Some(b)) => {
            assert(strip_opt_expr(o1) is None);
            assert(strip_opt_expr(o2) is Some);
        },
    }
}

proof fn lemma_src(
    opts: OptionsView,
    reg: Seq<Seq<(Seq<char>, TypeInfoView)>>,
    child: int,
    s1: SourceView,
    s2: SourceView,
)
    requires
        strip_source(s1) == strip_source(s2),
    ensures
        same_outcome_src(
            spec_an_source(opts, reg, child, s1),
            spec_an_source(opts, reg, child, s2),
        ),
    decreases s1, 3int,
{
    assert(s1.binding == s2.binding);
    assert(strip_kind(s1.kind) == strip_kind(s2.kind));
    match s1.kind {
        SourceKindView::Events => {
            assert(s2.kind is Events);
        },
        SourceKindView::Subject(n1) => {
            assert(s2.kind is Subject);
            assert(n1 == s2.kind->Subject_0);
        },
        SourceKindView::Subquery(q1) => {
            assert(s2.kind is Subquery);
            let q2 = s2.kind->Subquery_0;
            assert(strip_query(*q1) == strip_query(*q2));
            lemma_q(opts, reg, child, *q1, *q2);
        },
    }
}

proof fn lemma_srcs(
    opts: OptionsView,
    reg: Seq<Seq<(Seq<char>, TypeInfoView)>>,
    child: int,
    ss1: Seq<SourceView>,
    ss2: Seq<SourceView>,
)
    requires
        strip_sources(ss1) == strip_sources(ss2),
    ensures
        same_outcome_srcs(
            spec_an_sources(opts, reg, child, ss1),
            spec_an_sources(opts, reg, child, ss2),
        ),
    decreases ss1, 4int,
{
    assert(strip_sources(ss1).len() == ss1.len());
    assert(strip_sources(ss2).len() == ss2.len());
    assert(ss1.len() == ss2.len());
    if ss1.len() > 0 {
        assert(strip_sources(ss1)[0] == strip_source(ss1[0]));
        assert(strip_sources(ss2)[0] == strip_source(ss2[0]));
        lemma_src(opts, reg, child, ss1[0], ss2[0]);
        let r1 = ss1.subrange(1, ss1.len() as int);
        let r2 = ss2.subrange(1, ss2.len() as int);
        assert(strip_sources(r1) =~= strip_sources(ss1).subrange(1, ss1.len() as int));
        assert(strip_sources(r2) =~= strip_sources(ss2).subrange(1, ss2.len() as int));
        match (spec_an_source(opts, reg, child, ss1[0]), spec_an_source(opts, reg, child, ss2[0])) {
            (Ok((ts1, reg1)), Ok((ts2, reg2))) => {
                assert(reg1 == reg2);
                lemma_srcs(opts, reg1, child, r1, r2);
                match (spec_an_sources(opts, reg1, child, r1), spec_an_sources(
                    opts,
                    reg1,
                    child,
                    r2,
                )) {
                    (Ok((rest1, _)), Ok((rest2, _))) => {
                        lemma_strip_sources_cons(ts1, rest1, ts2, rest2);
                    },
                    _ => {},
                }
            },
            _ => {},
        }
    }
}

#[verifier::rlimit(100)]
#[verifier::spinoff_prover]
proof fn lemma_q(
    opts: OptionsView,
    reg: Seq<Seq<(Seq<char>, TypeInfoView)>>,
    d: int,
    q1: QueryView,
    q2: QueryView,
)
    requires
        strip_query(q1) == strip_query(q2),
    ensures
        same_outcome_q(spec_an_query(opts, reg, d, q1), spec_an_query(opts, reg, d, q2)),
    decreases q1, 5int,
{
    assert(strip_attrs(q1.attrs) == strip_attrs(q2.attrs));
    assert(strip_sources(q1.sources) == strip_sources(q2.sources));
    assert(strip_opt_expr(q1.predicate) == strip_opt_expr(q2.predicate));
    assert(strip_opt_expr(q1.group_by) == strip_opt_expr(q2.group_by));
    assert(strip_order_by(q1.order_by) == strip_order_by(q2.order_by));
    assert(q1.limit == q2.limit);
    assert(strip_expr(*q1.projection) == strip_expr(*q2.projection));
    let child = d + 1;
    let reg1 = if reg.len() <= child {
        reg.push(seq![])
    } else {
        reg
    };
    lemma_srcs(opts, reg1, child, q1.sources, q2.sources);
    match (spec_an_sources(opts, reg1, child, q1.sources), spec_an_sources(
        opts,
        reg1,
        child,
        q2.sources,
    )) {
        (Ok((ts1, reg2)), Ok((ts2, reg2b))) => {
            assert(reg2b == reg2);
            lemma_topt(reg2, child, q1.predicate, q2.predicate);
            lemma_topt(reg2, child, q1.group_by, q2.group_by);
            match (q1.order_by, q2.order_by) {
                (Some(ob1), Some(ob2)) => {
                    assert(strip_expr(ob1.expr) == strip_expr(ob2.expr));
                    assert(ob1.order == ob2.order);
                    lemma_te(reg2, child, ob1.expr, ob2.expr);
                },
                (None, None) => {},
                (Some(ob1), None) => {
                    assert(strip_order_by(q1.order_by) is Some);
                    assert(strip_order_by(q2.order_by) is None);
                },
                (None, Some(ob2)) => {
                    assert(strip_order_by(q1.order_by) is None);
                    assert(strip_order_by(q2.order_by) is Some);
                },
            }
            lemma_te(reg2, child, *q1.projection, *q2.projection);
        },
        _ => {},
    }
}

/// Item analysis-input-independence, in its broad form: two raw queries
/// that are structurally identical up to position metadata analyze,
/// under one configuration, to outcomes identical up to position
/// metadata — both typed trees equal once positions are blanked, or both
/// errors of the same kind with the same name. Fresh parses of one text
/// are the special case in which the strips (indeed the whole models)
/// coincide.
pub proof fn lemma_analysis_position_independent(opts: AnalysisOptions, q1: Query, q2: Query)
    requires
        strip_query(query_view(q1)) == strip_query(query_view(q2)),
    ensures
        same_analysis_outcome(
            spec_static_analysis(opts_view(opts), query_view(q1)),
            spec_static_analysis(opts_view(opts), query_view(q2)),
        ),
{
    lemma_q(
        opts_view(opts),
        seq![opts_view(opts).default_scope],
        0,
        query_view(q1),
        query_view(q2),
    );
}

} // verus!
