//! The parser: recursive descent with one token of lookahead over an
//! immutable token buffer, building the raw syntax tree.
//!
//! The grammar is defined by the `spec_parse_*` family below, and the
//! executable parser is proved to return exactly its result. Expressions
//! use precedence climbing: multiplicative operators bind tighter than
//! additive ones, which bind tighter than comparisons; all binary
//! operators are left-associative, and field access binds tightest of
//! all. A leading unary `+`/`-` applies to the whole expression after it.
//! An expression ends at end-of-input, `)`, `,`, `]`, `}`, or a clause
//! keyword in operator position; any other token there is an
//! `ExpectedOperator` error.

use vstd::prelude::*;
use vstd::slice::slice_index_get;
use crate::ast::{
    Access, AccessView, App, AppView, Attrs, Binary, BinaryView, Expr, ExprView, Field, FieldView,
    Limit, Order, OrderBy, OrderByView, Pos, Query, QueryView, Source, SourceKind, SourceKindView,
    SourceView, Type, Unary, UnaryView, Value, ValueView,
};
use crate::ast::{expr_view, exprs_view, fields_view, kind_view, opt_expr_view, query_view,
    source_view, sources_view};
use crate::error::ParserError;
use crate::token::{Keyword, Num, NumView, Operator, Sym, SymView, Symbol, Token, TokenView,
    is_kw, kw_chars, str_is_kw, token_views};

verus! {

/// The position a token carries.
pub open spec fn tok_pos(t: TokenView) -> Pos {
    Pos { line: t.line, col: t.col }
}

pub open spec fn e_ident(t: TokenView) -> ParserError {
    ParserError::ExpectedIdent(t.line, t.col)
}

pub open spec fn e_kw(t: TokenView, k: Keyword) -> ParserError {
    ParserError::ExpectedKeyword(t.line, t.col, k)
}

pub open spec fn e_sym(t: TokenView, s: Symbol) -> ParserError {
    ParserError::ExpectedSymbol(t.line, t.col, s)
}

pub open spec fn e_op(t: TokenView) -> ParserError {
    ParserError::ExpectedOperator(t.line, t.col)
}

pub open spec fn e_tok(t: TokenView) -> ParserError {
    ParserError::UnexpectedToken(t.line, t.col)
}

/// The token is an identifier that plays the role of keyword `k`.
pub open spec fn tok_is_kw(t: TokenView, k: Keyword) -> bool {
    t.sym is Id && is_kw(t.sym->Id_0, k)
}

/// The token is a punctuation symbol `s`.
pub open spec fn tok_is_sym(t: TokenView, s: Symbol) -> bool {
    t.sym is Symbol && t.sym->Symbol_0 == s
}

/// A clause keyword in operator position ends the current expression.
pub open spec fn is_clause_kw(t: TokenView) -> bool {
    ||| tok_is_kw(t, Keyword::From)
    ||| tok_is_kw(t, Keyword::Where)
    ||| tok_is_kw(t, Keyword::Group)
    ||| tok_is_kw(t, Keyword::By)
    ||| tok_is_kw(t, Keyword::Order)
    ||| tok_is_kw(t, Keyword::Asc)
    ||| tok_is_kw(t, Keyword::Desc)
    ||| tok_is_kw(t, Keyword::Skip)
    ||| tok_is_kw(t, Keyword::Top)
    ||| tok_is_kw(t, Keyword::Select)
}

/// The binding powers of a binary operator: comparisons bind loosest,
/// then additive, then multiplicative operators; the right power exceeds
/// the left one, which makes every operator left-associative.
pub open spec fn spec_binding_pow(op: Operator) -> (u64, u64) {
    match op {
        Operator::Add | Operator::Sub => (10u64, 11u64),
        Operator::Mul | Operator::Div => (20u64, 21u64),
        _ => (1u64, 2u64),
    }
}

/// The scope id of a query nested one level deeper: the counter moves
/// on by one, wrapping at the top of `u64` (unreachable in practice,
/// since nesting depth is bounded by the token count).
pub open spec fn next_scope(sc: u64) -> u64 {
    if sc == u64::MAX {
        0
    } else {
        (sc + 1) as u64
    }
}

/// A well-formed token buffer: non-empty, bounded, and ending with the
/// one end-of-input token the lexer guarantees.
pub open spec fn wf_tokens(ts: Seq<TokenView>) -> bool {
    &&& 0 < ts.len() <= 0xFFFF_FFFF
    &&& ts.last().sym is Eof
}

/// An identifier token at `i`: its text, and the next position.
pub open spec fn spec_parse_ident(ts: Seq<TokenView>, i: int) -> Result<
    (Seq<char>, int),
    ParserError,
> {
    if !(0 <= i < ts.len()) {
        Err(ParserError::UnexpectedEof)
    } else if ts[i].sym is Id {
        Ok((ts[i].sym->Id_0, i + 1))
    } else {
        Err(e_ident(ts[i]))
    }
}

/// A primary expression at `i`: a literal, `true`/`false`, a variable, an
/// application `f(args...)`, a parenthesized group, an array `[...]`, a
/// record `{name: expr, ...}`, or a unary `+`/`-`.
pub open spec fn spec_parse_primary(ts: Seq<TokenView>, i: int, sc: u64) -> Result<
    (ExprView, int),
    ParserError,
>
    decreases ts.len() - i, 1int,
{
    if !(0 <= i < ts.len()) {
        Err(ParserError::UnexpectedEof)
    } else {
        let t = ts[i];
        let attrs = Attrs { pos: tok_pos(t), scope: sc, tpe: Type::Unspecified };
        match t.sym {
            SymView::Eof => Err(ParserError::UnexpectedEof),
            SymView::Id(name) => {
                if is_kw(name, Keyword::True) {
                    Ok((ExprView { attrs, value: ValueView::Bool(true) }, i + 1))
                } else if is_kw(name, Keyword::False) {
                    Ok((ExprView { attrs, value: ValueView::Bool(false) }, i + 1))
                } else if i + 1 < ts.len() && tok_is_sym(ts[i + 1], Symbol::OpenParen) {
                    if !(i + 2 < ts.len()) {
                        Err(ParserError::UnexpectedEof)
                    } else if tok_is_sym(ts[i + 2], Symbol::CloseParen) {
                        Ok(
                            (
                                ExprView {
                                    attrs,
                                    value: ValueView::App(AppView { func: name, args: seq![] }),
                                },
                                i + 3,
                            ),
                        )
                    } else {
                        match spec_parse_expr_list(ts, i + 2, sc) {
                            Err(e) => Err(e),
                            Ok((args, j)) => if !(0 <= j < ts.len()) {
                                Err(ParserError::UnexpectedEof)
                            } else if tok_is_sym(ts[j], Symbol::CloseParen) {
                                Ok(
                                    (
                                        ExprView {
                                            attrs,
                                            value: ValueView::App(AppView { func: name, args }),
                                        },
                                        j + 1,
                                    ),
                                )
                            } else {
                                Err(e_sym(ts[j], Symbol::CloseParen))
                            },
                        }
                    }
                } else {
                    Ok((ExprView { attrs, value: ValueView::Id(name) }, i + 1))
                }
            },
            SymView::String(s2) => Ok((ExprView { attrs, value: ValueView::String(s2) }, i + 1)),
            SymView::Number(nv) => Ok((ExprView { attrs, value: ValueView::Number(nv) }, i + 1)),
            SymView::Symbol(sy) => {
                if sy == Symbol::OpenParen {
                    match spec_parse_expr(ts, i + 1, sc) {
                        Err(e) => Err(e),
                        Ok((e, j)) => if !(0 <= j < ts.len()) {
                            Err(ParserError::UnexpectedEof)
                        } else if tok_is_sym(ts[j], Symbol::CloseParen) {
                            Ok((ExprView { attrs, value: ValueView::Group(Box::new(e)) }, j + 1))
                        } else {
                            Err(e_sym(ts[j], Symbol::CloseParen))
                        },
                    }
                } else if sy == Symbol::OpenBracket {
                    if i + 1 < ts.len() && tok_is_sym(ts[i + 1], Symbol::CloseBracket) {
                        Ok((ExprView { attrs, value: ValueView::Array(seq![]) }, i + 2))
                    } else {
                        match spec_parse_expr_list(ts, i + 1, sc) {
                            Err(e) => Err(e),
                            Ok((es, j)) => if !(0 <= j < ts.len()) {
                                Err(ParserError::UnexpectedEof)
                            } else if tok_is_sym(ts[j], Symbol::CloseBracket) {
                                Ok((ExprView { attrs, value: ValueView::Array(es) }, j + 1))
                            } else {
                                Err(e_sym(ts[j], Symbol::CloseBracket))
                            },
                        }
                    }
                } else if sy == Symbol::OpenBrace {
                    if i + 1 < ts.len() && tok_is_sym(ts[i + 1], Symbol::CloseBrace) {
                        Ok((ExprView { attrs, value: ValueView::Record(seq![]) }, i + 2))
                    } else {
                        match spec_parse_fields(ts, i + 1, sc) {
                            Err(e) => Err(e),
                            Ok((fs, j)) => if !(0 <= j < ts.len()) {
                                Err(ParserError::UnexpectedEof)
                            } else if tok_is_sym(ts[j], Symbol::CloseBrace) {
                                Ok((ExprView { attrs, value: ValueView::Record(fs) }, j + 1))
                            } else {
                                Err(e_sym(ts[j], Symbol::CloseBrace))
                            },
                        }
                    }
                } else {
                    Err(e_tok(t))
                }
            },
            SymView::Operator(op) => {
                if op == Operator::Add || op == Operator::Sub {
                    match spec_parse_expr(ts, i + 1, sc) {
                        Err(e) => Err(e),
                        Ok((e, j)) => Ok(
                            (
                                ExprView {
                                    attrs,
                                    value: ValueView::Unary(
                                        UnaryView { operator: op, expr: Box::new(e) },
                                    ),
                                },
                                j,
                            ),
                        ),
                    }
                } else {
                    Err(e_tok(t))
                }
            },
        }
    }
}

/// Continue a climbing parse with `lhs` already read: fold field
/// accesses and binary operators of binding power at least `min` onto it,
/// until a terminator, a clause keyword, or a looser operator appears.
pub open spec fn spec_parse_more(
    ts: Seq<TokenView>,
    j: int,
    lhs: ExprView,
    min: u64,
    sc: u64,
) -> Result<(ExprView, int), ParserError>
    decreases ts.len() - j, 2int,
{
    if !(0 <= j < ts.len()) {
        Err(ParserError::UnexpectedEof)
    } else {
        let t = ts[j];
        match t.sym {
            SymView::Eof => Ok((lhs, j)),
            SymView::Symbol(sy) => {
                if sy == Symbol::CloseParen || sy == Symbol::Comma || sy == Symbol::CloseBracket
                    || sy == Symbol::CloseBrace {
                    Ok((lhs, j))
                } else if sy == Symbol::Dot {
                    if !(j + 1 < ts.len()) {
                        Err(ParserError::UnexpectedEof)
                    } else if ts[j + 1].sym is Id {
                        let newlhs = ExprView {
                            attrs: lhs.attrs,
                            value: ValueView::Access(
                                AccessView { target: Box::new(lhs), field: ts[j + 1].sym->Id_0 },
                            ),
                        };
                        spec_parse_more(ts, j + 2, newlhs, min, sc)
                    } else {
                        Err(e_ident(ts[j + 1]))
                    }
                } else {
                    Err(e_op(t))
                }
            },
            SymView::Operator(op) => {
                if spec_binding_pow(op).0 < min {
                    Ok((lhs, j))
                } else {
                    match spec_parse_binary(ts, j + 1, spec_binding_pow(op).1, sc) {
                        Err(e) => Err(e),
                        Ok((rhs, j2)) => if j2 <= j || j2 > ts.len() {
                            Err(ParserError::UnexpectedEof)
                        } else {
                            let newlhs = ExprView {
                                attrs: lhs.attrs,
                                value: ValueView::Binary(
                                    BinaryView {
                                        lhs: Box::new(lhs),
                                        operator: op,
                                        rhs: Box::new(rhs),
                                    },
                                ),
                            };
                            spec_parse_more(ts, j2, newlhs, min, sc)
                        },
                    }
                }
            },
            SymView::Id(_) => {
                if is_clause_kw(t) {
                    Ok((lhs, j))
                } else {
                    Err(e_op(t))
                }
            },
            _ => Err(e_op(t)),
        }
    }
}

/// A climbing parse at `i` that folds operators of power at least `min`.
pub open spec fn spec_parse_binary(ts: Seq<TokenView>, i: int, min: u64, sc: u64) -> Result<
    (ExprView, int),
    ParserError,
>
    decreases ts.len() - i, 3int,
{
    match spec_parse_primary(ts, i, sc) {
        Err(e) => Err(e),
        Ok((lhs, j)) => if j < i || j > ts.len() {
            Err(ParserError::UnexpectedEof)
        } else {
            spec_parse_more(ts, j, lhs, min, sc)
        },
    }
}

/// A full expression at `i`. The first token must be able to begin one.
pub open spec fn spec_parse_expr(ts: Seq<TokenView>, i: int, sc: u64) -> Result<
    (ExprView, int),
    ParserError,
>
    decreases ts.len() - i, 4int,
{
    if !(0 <= i < ts.len()) {
        Err(ParserError::UnexpectedEof)
    } else {
        let t = ts[i];
        match t.sym {
            SymView::Eof => Err(ParserError::UnexpectedEof),
            SymView::Id(_) | SymView::String(_) | SymView::Number(_) => spec_parse_binary(
                ts,
                i,
                0,
                sc,
            ),
            SymView::Symbol(sy) => if sy == Symbol::OpenParen || sy == Symbol::OpenBracket || sy
                == Symbol::OpenBrace {
                spec_parse_binary(ts, i, 0, sc)
            } else {
                Err(e_tok(t))
            },
            SymView::Operator(op) => if op == Operator::Add || op == Operator::Sub {
                spec_parse_binary(ts, i, 0, sc)
            } else {
                Err(e_tok(t))
            },
        }
    }
}

/// A non-empty comma-separated expression list (application arguments or
/// array elements); it does not consume the closing symbol.
pub open spec fn spec_parse_expr_list(ts: Seq<TokenView>, i: int, sc: u64) -> Result<
    (Seq<ExprView>, int),
    ParserError,
>
    decreases ts.len() - i, 5int,
{
    match spec_parse_expr(ts, i, sc) {
        Err(e) => Err(e),
        Ok((e, j)) => if j <= i {
            Err(ParserError::UnexpectedEof)
        } else if 0 <= j < ts.len() && tok_is_sym(ts[j], Symbol::Comma) {
            match spec_parse_expr_list(ts, j + 1, sc) {
                Err(e2) => Err(e2),
                Ok((rest, j2)) => Ok((seq![e] + rest, j2)),
            }
        } else {
            Ok((seq![e], j))
        },
    }
}

/// A non-empty comma-separated list of `name: expr` record fields; it
/// does not consume the closing brace.
pub open spec fn spec_parse_fields(ts: Seq<TokenView>, i: int, sc: u64) -> Result<
    (Seq<FieldView>, int),
    ParserError,
>
    decreases ts.len() - i, 5int,
{
    if !(0 <= i < ts.len()) {
        Err(ParserError::UnexpectedEof)
    } else if !(ts[i].sym is Id) {
        Err(e_ident(ts[i]))
    } else if !(i + 1 < ts.len()) {
        Err(ParserError::UnexpectedEof)
    } else if !tok_is_sym(ts[i + 1], Symbol::Colon) {
        Err(e_sym(ts[i + 1], Symbol::Colon))
    } else {
        match spec_parse_expr(ts, i + 2, sc) {
            Err(e) => Err(e),
            Ok((e, j)) => {
                let f = FieldView { name: ts[i].sym->Id_0, value: e };
                if j < i {
                    Err(ParserError::UnexpectedEof)
                } else if 0 <= j < ts.len() && tok_is_sym(ts[j], Symbol::Comma) {
                    match spec_parse_fields(ts, j + 1, sc) {
                        Err(e2) => Err(e2),
                        Ok((rest, j2)) => Ok((seq![f] + rest, j2)),
                    }
                } else {
                    Ok((seq![f], j))
                }
            },
        }
    }
}

/// A source's kind: the `events` stream, a string-literal subject name,
/// or a parenthesized subquery.
pub open spec fn spec_parse_source_kind(ts: Seq<TokenView>, i: int, sc: u64) -> Result<
    (SourceKindView, int),
    ParserError,
>
    decreases ts.len() - i, 6int,
{
    if !(0 <= i < ts.len()) {
        Err(ParserError::UnexpectedEof)
    } else {
        let t = ts[i];
        if tok_is_kw(t, Keyword::Events) {
            Ok((SourceKindView::Events, i + 1))
        } else if t.sym is String {
            Ok((SourceKindView::Subject(t.sym->String_0), i + 1))
        } else if tok_is_sym(t, Symbol::OpenParen) {
            match spec_parse_query(ts, i + 1, sc) {
                Err(e) => Err(e),
                Ok((q, j)) => if !(0 <= j < ts.len()) {
                    Err(ParserError::UnexpectedEof)
                } else if tok_is_sym(ts[j], Symbol::CloseParen) {
                    Ok((SourceKindView::Subquery(Box::new(q)), j + 1))
                } else {
                    Err(e_sym(ts[j], Symbol::CloseParen))
                },
            }
        } else {
            Err(e_tok(t))
        }
    }
}

/// One `from binding in kind` clause; the source remembers the binding
/// identifier's position for duplicate-binding diagnostics.
pub open spec fn spec_parse_source(ts: Seq<TokenView>, i: int, sc: u64) -> Result<
    (SourceView, int),
    ParserError,
>
    decreases ts.len() - i, 7int,
{
    if !(0 <= i < ts.len()) {
        Err(ParserError::UnexpectedEof)
    } else if !tok_is_kw(ts[i], Keyword::From) {
        Err(e_kw(ts[i], Keyword::From))
    } else if !(i + 1 < ts.len()) {
        Err(ParserError::UnexpectedEof)
    } else if !(ts[i + 1].sym is Id) {
        Err(e_ident(ts[i + 1]))
    } else if !(i + 2 < ts.len()) {
        Err(ParserError::UnexpectedEof)
    } else if !tok_is_kw(ts[i + 2], Keyword::In) {
        Err(e_kw(ts[i + 2], Keyword::In))
    } else {
        match spec_parse_source_kind(ts, i + 3, sc) {
            Err(e) => Err(e),
            Ok((kv, j)) => Ok(
                (
                    SourceView {
                        binding: ts[i + 1].sym->Id_0,
                        pos: tok_pos(ts[i + 1]),
                        kind: kv,
                    },
                    j,
                ),
            ),
        }
    }
}

/// One or more `from` clauses, as long as a `from` keyword follows.
pub open spec fn spec_parse_sources(ts: Seq<TokenView>, i: int, sc: u64) -> Result<
    (Seq<SourceView>, int),
    ParserError,
>
    decreases ts.len() - i, 8int,
{
    match spec_parse_source(ts, i, sc) {
        Err(e) => Err(e),
        Ok((sv, j)) => if j <= i {
            Err(ParserError::UnexpectedEof)
        } else if 0 <= j < ts.len() && tok_is_kw(ts[j], Keyword::From) {
            match spec_parse_sources(ts, j, sc) {
                Err(e2) => Err(e2),
                Ok((rest, j2)) => Ok((seq![sv] + rest, j2)),
            }
        } else {
            Ok((seq![sv], j))
        },
    }
}

/// A mandatory `where expr` clause, once the keyword has been seen.
pub open spec fn spec_parse_where_clause(ts: Seq<TokenView>, j: int, sc: u64) -> Result<
    (ExprView, int),
    ParserError,
>
    decreases ts.len() - j, 8int,
{
    if !(0 <= j < ts.len()) {
        Err(ParserError::UnexpectedEof)
    } else if !tok_is_kw(ts[j], Keyword::Where) {
        Err(e_kw(ts[j], Keyword::Where))
    } else {
        spec_parse_expr(ts, j + 1, sc)
    }
}

/// An optional `where expr` clause.
pub open spec fn spec_parse_where(ts: Seq<TokenView>, j: int, sc: u64) -> Result<
    (Option<ExprView>, int),
    ParserError,
>
    decreases ts.len() - j, 8int,
{
    if 0 <= j < ts.len() && tok_is_kw(ts[j], Keyword::Where) {
        match spec_parse_expr(ts, j + 1, sc) {
            Err(e) => Err(e),
            Ok((e, j2)) => Ok((Some(e), j2)),
        }
    } else {
        Ok((None, j))
    }
}

/// An optional `group by expr` clause.
pub open spec fn spec_parse_group(ts: Seq<TokenView>, j: int, sc: u64) -> Result<
    (Option<ExprView>, int),
    ParserError,
>
    decreases ts.len() - j, 8int,
{
    if 0 <= j < ts.len() && tok_is_kw(ts[j], Keyword::Group) {
        if !(j + 1 < ts.len()) {
            Err(ParserError::UnexpectedEof)
        } else if !tok_is_kw(ts[j + 1], Keyword::By) {
            Err(e_kw(ts[j + 1], Keyword::By))
        } else {
            match spec_parse_expr(ts, j + 2, sc) {
                Err(e) => Err(e),
                Ok((e, j2)) => Ok((Some(e), j2)),
            }
        }
    } else {
        Ok((None, j))
    }
}

/// An optional `order by expr (asc|desc)` clause; the direction is
/// mandatory once `order` appears.
pub open spec fn spec_parse_order(ts: Seq<TokenView>, j: int, sc: u64) -> Result<
    (Option<OrderByView>, int),
    ParserError,
>
    decreases ts.len() - j, 8int,
{
    if 0 <= j < ts.len() && tok_is_kw(ts[j], Keyword::Order) {
        if !(j + 1 < ts.len()) {
            Err(ParserError::UnexpectedEof)
        } else if !tok_is_kw(ts[j + 1], Keyword::By) {
            Err(e_kw(ts[j + 1], Keyword::By))
        } else {
            match spec_parse_expr(ts, j + 2, sc) {
                Err(e) => Err(e),
                Ok((e, j2)) => if !(0 <= j2 < ts.len()) {
                    Err(ParserError::UnexpectedEof)
                } else if tok_is_kw(ts[j2], Keyword::Asc) {
                    Ok((Some(OrderByView { expr: e, order: Order::Asc }), j2 + 1))
                } else if tok_is_kw(ts[j2], Keyword::Desc) {
                    Ok((Some(OrderByView { expr: e, order: Order::Desc }), j2 + 1))
                } else if ts[j2].sym is Eof {
                    Err(ParserError::UnexpectedEof)
                } else {
                    Err(e_tok(ts[j2]))
                },
            }
        }
    } else {
        Ok((None, j))
    }
}

/// An optional `skip n` or `top n` clause; `n` must be an integer literal.
pub open spec fn spec_parse_limit(ts: Seq<TokenView>, j: int) -> Result<
    (Option<Limit>, int),
    ParserError,
> {
    if 0 <= j < ts.len() && (tok_is_kw(ts[j], Keyword::Skip) || tok_is_kw(ts[j], Keyword::Top)) {
        if !(j + 1 < ts.len()) {
            Err(ParserError::UnexpectedEof)
        } else if ts[j + 1].sym is Eof {
            Err(ParserError::UnexpectedEof)
        } else if ts[j + 1].sym is Number && ts[j + 1].sym->Number_0 is Int {
            let n = ts[j + 1].sym->Number_0->Int_0;
            if tok_is_kw(ts[j], Keyword::Skip) {
                Ok((Some(Limit::Skip(n)), j + 2))
            } else {
                Ok((Some(Limit::Top(n)), j + 2))
            }
        } else {
            Err(e_tok(ts[j + 1]))
        }
    } else {
        Ok((None, j))
    }
}

/// The mandatory `select expr` projection.
pub open spec fn spec_parse_projection(ts: Seq<TokenView>, j: int, sc: u64) -> Result<
    (ExprView, int),
    ParserError,
>
    decreases ts.len() - j, 8int,
{
    if !(0 <= j < ts.len()) {
        Err(ParserError::UnexpectedEof)
    } else if !tok_is_kw(ts[j], Keyword::Select) {
        Err(e_kw(ts[j], Keyword::Select))
    } else {
        match spec_parse_expr(ts, j + 1, sc) {
            Err(e) => Err(e),
            Ok((e, j2)) => Ok((e, j2)),
        }
    }
}

/// A query at `i`, parsed in the scope that is one deeper than `sc`:
/// one or more sources, then the optional `where`, `group by`,
/// `order by` and limit clauses in that order, then the projection.
/// The query node's position is its first token's; its scope id is the
/// inner scope, which nested queries deepen by one more.
pub open spec fn spec_parse_query(ts: Seq<TokenView>, i: int, sc: u64) -> Result<
    (QueryView, int),
    ParserError,
>
    decreases ts.len() - i, 10int,
{
    if !(0 <= i < ts.len()) {
        Err(ParserError::UnexpectedEof)
    } else {
        spec_parse_query_at(ts, i, next_scope(sc))
    }
}

/// The clause chain of a query whose own scope id is `inner`.
pub open spec fn spec_parse_query_at(ts: Seq<TokenView>, i: int, inner: u64) -> Result<
    (QueryView, int),
    ParserError,
>
    decreases ts.len() - i, 9int,
{
    if !(0 <= i < ts.len()) {
        Err(ParserError::UnexpectedEof)
    } else {
        let qattrs = Attrs { pos: tok_pos(ts[i]), scope: inner, tpe: Type::Unspecified };
        match spec_parse_sources(ts, i, inner) {
            Err(e) => Err(e),
            Ok((srcs, j1)) => if j1 < i {
                Err(ParserError::UnexpectedEof)
            } else {
                match spec_parse_where(ts, j1, inner) {
                    Err(e) => Err(e),
                    Ok((pred, j2)) => if j2 < j1 {
                        Err(ParserError::UnexpectedEof)
                    } else {
                        match spec_parse_group(ts, j2, inner) {
                            Err(e) => Err(e),
                            Ok((grp, j3)) => if j3 < j2 {
                                Err(ParserError::UnexpectedEof)
                            } else {
                                match spec_parse_order(ts, j3, inner) {
                                    Err(e) => Err(e),
                                    Ok((ob, j4)) => if j4 < j3 {
                                        Err(ParserError::UnexpectedEof)
                                    } else {
                                        match spec_parse_limit(ts, j4) {
                                            Err(e) => Err(e),
                                            Ok((lim, j5)) => if j5 < j4 {
                                                Err(ParserError::UnexpectedEof)
                                            } else {
                                                match spec_parse_projection(ts, j5, inner) {
                                                    Err(e) => Err(e),
                                                    Ok((proj, j6)) => Ok(
                                                        (
                                                            QueryView {
                                                                attrs: qattrs,
                                                                sources: srcs,
                                                                predicate: pred,
                                                                group_by: grp,
                                                                order_by: ob,
                                                                limit: lim,
                                                                projection: Box::new(proj),
                                                            },
                                                            j6,
                                                        ),
                                                    ),
                                                }
                                            },
                                        }
                                    },
                                }
                            },
                        }
                    },
                }
            },
        }
    }
}

/// A whole token buffer as one query: the top-level query must be
/// followed by the end-of-input token.
pub open spec fn spec_parse(ts: Seq<TokenView>) -> Result<QueryView, ParserError> {
    match spec_parse_query(ts, 0, 1) {
        Err(e) => Err(e),
        Ok((q, j)) => if 0 <= j < ts.len() && ts[j].sym is Eof {
            Ok(q)
        } else if 0 <= j < ts.len() {
            Err(e_tok(ts[j]))
        } else {
            Err(ParserError::UnexpectedEof)
        },
    }
}

/// The executable expression result is exactly the mathematical one.
pub open spec fn expr_matches(
    r: Result<Expr, ParserError>,
    m: Result<(ExprView, int), ParserError>,
    off: int,
) -> bool {
    match (r, m) {
        (Ok(e), Ok((ev, j))) => expr_view(e) == ev && off == j,
        (Err(a), Err(b)) => a == b,
        _ => false,
    }
}

/// The executable expression list result is exactly the mathematical one.
pub open spec fn list_matches(
    r: Result<Vec<Expr>, ParserError>,
    m: Result<(Seq<ExprView>, int), ParserError>,
    off: int,
) -> bool {
    match (r, m) {
        (Ok(v), Ok((sv, j))) => exprs_view(v@) == sv && off == j,
        (Err(a), Err(b)) => a == b,
        _ => false,
    }
}

/// The executable field list result is exactly the mathematical one.
pub open spec fn fields_matches(
    r: Result<Vec<Field>, ParserError>,
    m: Result<(Seq<FieldView>, int), ParserError>,
    off: int,
) -> bool {
    match (r, m) {
        (Ok(v), Ok((sv, j))) => fields_view(v@) == sv && off == j,
        (Err(a), Err(b)) => a == b,
        _ => false,
    }
}

/// The executable source kind result is exactly the mathematical one.
pub open spec fn kind_matches(
    r: Result<SourceKind, ParserError>,
    m: Result<(SourceKindView, int), ParserError>,
    off: int,
) -> bool {
    match (r, m) {
        (Ok(k), Ok((kv, j))) => kind_view(k) == kv && off == j,
        (Err(a), Err(b)) => a == b,
        _ => false,
    }
}

/// The executable source result is exactly the mathematical one.
pub open spec fn source_matches(
    r: Result<Source, ParserError>,
    m: Result<(SourceView, int), ParserError>,
    off: int,
) -> bool {
    match (r, m) {
        (Ok(s), Ok((sv, j))) => source_view(s) == sv && off == j,
        (Err(a), Err(b)) => a == b,
        _ => false,
    }
}

/// The executable source list result is exactly the mathematical one.
pub open spec fn sources_matches(
    r: Result<Vec<Source>, ParserError>,
    m: Result<(Seq<SourceView>, int), ParserError>,
    off: int,
) -> bool {
    match (r, m) {
        (Ok(v), Ok((sv, j))) => sources_view(v@) == sv && off == j,
        (Err(a), Err(b)) => a == b,
        _ => false,
    }
}

/// The executable query result is exactly the mathematical one.
pub open spec fn query_matches(
    r: Result<Query, ParserError>,
    m: Result<(QueryView, int), ParserError>,
    off: int,
) -> bool {
    match (r, m) {
        (Ok(q), Ok((qv, j))) => query_view(q) == qv && off == j,
        (Err(a), Err(b)) => a == b,
        _ => false,
    }
}

/// Expressions already gathered, glued onto the rest of a list parse.
pub open spec fn list_glue(
    pre: Seq<ExprView>,
    m: Result<(Seq<ExprView>, int), ParserError>,
) -> Result<(Seq<ExprView>, int), ParserError> {
    match m {
        Ok((sv, j)) => Ok((pre + sv, j)),
        Err(e) => Err(e),
    }
}

/// Fields already gathered, glued onto the rest of a field list parse.
pub open spec fn fields_glue(
    pre: Seq<FieldView>,
    m: Result<(Seq<FieldView>, int), ParserError>,
) -> Result<(Seq<FieldView>, int), ParserError> {
    match m {
        Ok((sv, j)) => Ok((pre + sv, j)),
        Err(e) => Err(e),
    }
}

/// Sources already gathered, glued onto the rest of a source list parse.
pub open spec fn sources_glue(
    pre: Seq<SourceView>,
    m: Result<(Seq<SourceView>, int), ParserError>,
) -> Result<(Seq<SourceView>, int), ParserError> {
    match m {
        Ok((sv, j)) => Ok((pre + sv, j)),
        Err(e) => Err(e),
    }
}

proof fn lemma_exprs_push(vs: Seq<Expr>, e: Expr)
    ensures
        exprs_view(vs.push(e)) =~= exprs_view(vs).push(expr_view(e)),
{
}

proof fn lemma_fields_push(vs: Seq<Field>, f: Field)
    ensures
        fields_view(vs.push(f)) =~= fields_view(vs).push(
            FieldView { name: f.name@, value: expr_view(f.value) },
        ),
{
}

proof fn lemma_sources_push(vs: Seq<Source>, s: Source)
    ensures
        sources_view(vs.push(s)) =~= sources_view(vs).push(source_view(s)),
{
}

proof fn lemma_list_glue_push(
    a: Seq<ExprView>,
    ev: ExprView,
    m: Result<(Seq<ExprView>, int), ParserError>,
)
    ensures
        list_glue(a, list_glue(seq![ev], m)) == list_glue(a.push(ev), m),
{
    match m {
        Ok((sv, j)) => {
            assert(a + (seq![ev] + sv) =~= a.push(ev) + sv);
        },
        Err(_) => {},
    }
}

proof fn lemma_fields_glue_push(
    a: Seq<FieldView>,
    fv: FieldView,
    m: Result<(Seq<FieldView>, int), ParserError>,
)
    ensures
        fields_glue(a, fields_glue(seq![fv], m)) == fields_glue(a.push(fv), m),
{
    match m {
        Ok((sv, j)) => {
            assert(a + (seq![fv] + sv) =~= a.push(fv) + sv);
        },
        Err(_) => {},
    }
}

proof fn lemma_sources_glue_push(
    a: Seq<SourceView>,
    sv0: SourceView,
    m: Result<(Seq<SourceView>, int), ParserError>,
)
    ensures
        sources_glue(a, sources_glue(seq![sv0], m)) == sources_glue(a.push(sv0), m),
{
    match m {
        Ok((sv, j)) => {
            assert(a + (seq![sv0] + sv) =~= a.push(sv0) + sv);
        },
        Err(_) => {},
    }
}

/// Does the token's identifier text play the role of keyword `k`?
pub fn token_is_kw(t: &Token, k: Keyword) -> (b: bool)
    ensures
        b == tok_is_kw(t@, k),
{
    match &t.sym {
        Sym::Id(n) => str_is_kw(n.as_str(), k),
        _ => false,
    }
}

/// Does the token end the current expression as a clause keyword?
fn is_clause_tok(t: &Token) -> (b: bool)
    ensures
        b == is_clause_kw(t@),
{
    token_is_kw(t, Keyword::From) || token_is_kw(t, Keyword::Where) || token_is_kw(
        t,
        Keyword::Group,
    ) || token_is_kw(t, Keyword::By) || token_is_kw(t, Keyword::Order) || token_is_kw(
        t,
        Keyword::Asc,
    ) || token_is_kw(t, Keyword::Desc) || token_is_kw(t, Keyword::Skip) || token_is_kw(
        t,
        Keyword::Top,
    ) || token_is_kw(t, Keyword::Select)
}

/// The token must play the role of keyword `k`, else the error names `k`
/// and the token's position.
pub fn expect_keyword(t: &Token, k: Keyword) -> (r: Result<(), ParserError>)
    ensures
        r is Ok <==> tok_is_kw(t@, k),
        r is Err ==> r->Err_0 == e_kw(t@, k),
{
    if token_is_kw(t, k) {
        Ok(())
    } else {
        Err(ParserError::ExpectedKeyword(t.line, t.col, k))
    }
}

/// The token must be the punctuation symbol `s`, else the error names it.
pub fn expect_symbol(t: &Token, s: Symbol) -> (r: Result<(), ParserError>)
    ensures
        r is Ok <==> tok_is_sym(t@, s),
        r is Err ==> r->Err_0 == e_sym(t@, s),
{
    match &t.sym {
        Sym::Symbol(s2) => if *s2 == s {
            Ok(())
        } else {
            Err(ParserError::ExpectedSymbol(t.line, t.col, s))
        },
        _ => Err(ParserError::ExpectedSymbol(t.line, t.col, s)),
    }
}

/// The binding powers of an operator; see `spec_binding_pow`.
pub fn binding_pow(op: Operator) -> (r: (u64, u64))
    ensures
        r == spec_binding_pow(op),
{
    match op {
        Operator::Add | Operator::Sub => (10, 11),
        Operator::Mul | Operator::Div => (20, 21),
        _ => (1, 2),
    }
}

/// A copy of a numeric literal with the same model.
fn dup_num(n: &Num) -> (r: Num)
    ensures
        r@ == n@,
{
    match n {
        Num::Int(v) => Num::Int(*v),
        Num::Float(t) => Num::Float(t.clone()),
    }
}

/// The recursive-descent parser: an immutable token buffer, a cursor
/// that never leaves the buffer, and the current scope-id counter.
pub struct Parser<'a> {
    pub input: &'a [Token],
    pub offset: usize,
    pub scope: u64,
}

impl<'a> Parser<'a> {
    /// The models of the parser's tokens.
    pub open spec fn tvs(self) -> Seq<TokenView> {
        token_views(self.input@)
    }

    /// The cursor is inside a well-formed buffer.
    pub open spec fn wf(self) -> bool {
        &&& self.offset < self.input@.len()
        &&& wf_tokens(self.tvs())
    }

    /// The buffer is the same as before a call.
    pub open spec fn same_buffer(self, other: Parser<'a>) -> bool {
        self.input == other.input
    }

    /// A parser at the start of a well-formed token buffer, in scope 1.
    pub fn new(input: &'a [Token]) -> (p: Self)
        requires
            wf_tokens(token_views(input@)),
        ensures
            p.wf(),
            p.input == input,
            p.offset == 0,
            p.scope == 1,
    {
        Parser { input, offset: 0, scope: 1 }
    }

    /// The token under the cursor, without moving it.
    pub fn peek(&self) -> (t: &'a Token)
        requires
            self.wf(),
        ensures
            t@ == self.tvs()[self.offset as int],
    {
        slice_index_get(self.input, self.offset)
    }

    /// The token under the cursor; the cursor moves one token forward,
    /// except past the last token, where it stays (so trailing-position
    /// errors still report the last real token).
    pub fn shift(&mut self) -> (t: &'a Token)
        requires
            old(self).wf(),
        ensures
            final(self).wf(),
            final(self).same_buffer(*old(self)),
            final(self).scope == old(self).scope,
            t@ == old(self).tvs()[old(self).offset as int],
            old(self).offset as int + 1 < old(self).input@.len() ==> final(self).offset == old(
                self,
            ).offset + 1,
            !(old(self).offset as int + 1 < old(self).input@.len()) ==> final(self).offset == old(
                self,
            ).offset,
    {
        let t = slice_index_get(self.input, self.offset);
        if self.offset + 1 < self.input.len() {
            self.offset = self.offset + 1;
        }
        t
    }

    /// An identifier token, shifted and handed out as an owned string.
    /// Success or failure, exactly one token is consumed (clamped at the
    /// last token, as `shift` clamps).
    pub fn parse_ident(&mut self) -> (r: Result<String, ParserError>)
        requires
            old(self).wf(),
        ensures
            final(self).wf(),
            final(self).same_buffer(*old(self)),
            final(self).scope == old(self).scope,
            old(self).offset <= final(self).offset,
            final(self).offset as int == (if old(self).offset as int + 1 < old(
                self,
            ).input@.len() {
                old(self).offset as int + 1
            } else {
                old(self).offset as int
            }),
            match (r, spec_parse_ident(old(self).tvs(), old(self).offset as int)) {
                (Ok(s2), Ok((sv, j))) => s2@ == sv && final(self).offset == j,
                (Err(a), Err(b)) => a == b,
                _ => false,
            },
    {
        let t = self.shift();
        match &t.sym {
            Sym::Id(n) => Ok(n.clone()),
            _ => Err(ParserError::ExpectedIdent(t.line, t.col)),
        }
    }

    /// A primary expression; see `spec_parse_primary`.
    pub fn parse_primary(&mut self) -> (r: Result<Expr, ParserError>)
        requires
            old(self).wf(),
        ensures
            final(self).wf(),
            final(self).same_buffer(*old(self)),
            final(self).scope == old(self).scope,
            old(self).offset <= final(self).offset,
            r is Ok ==> old(self).offset < final(self).offset,
            expr_matches(
                r,
                spec_parse_primary(old(self).tvs(), old(self).offset as int, old(self).scope),
                final(self).offset as int,
            ),
        decreases self.input@.len() - self.offset, 1int,
    {
        let ghost ts = self.tvs();
        let ghost i0 = self.offset as int;
        let t = self.shift();
        let attrs = Attrs::new(Pos { line: t.line, col: t.col }, self.scope);
        match &t.sym {
            Sym::Eof => Err(ParserError::UnexpectedEof),
            Sym::Id(name) => {
                if str_is_kw(name.as_str(), Keyword::True) {
                    Ok(Expr { attrs, value: Value::Bool(true) })
                } else if str_is_kw(name.as_str(), Keyword::False) {
                    Ok(Expr { attrs, value: Value::Bool(false) })
                } else {
                    let nxt = self.peek();
                    if matches!(&nxt.sym, Sym::Symbol(Symbol::OpenParen)) {
                        self.shift();
                        let nxt2 = self.peek();
                        if matches!(&nxt2.sym, Sym::Symbol(Symbol::CloseParen)) {
                            self.shift();
                            let args: Vec<Expr> = Vec::new();
                            proof {
                                assert(exprs_view(args@) =~= Seq::<ExprView>::empty());
                                assert(Seq::<ExprView>::empty() =~= seq![]);
                            }
                            Ok(
                                Expr {
                                    attrs,
                                    value: Value::App(App { func: name.clone(), args }),
                                },
                            )
                        } else {
                            let args = match self.parse_expr_list() {
                                Ok(v) => v,
                                Err(er) => {
                                    return Err(er);
                                },
                            };
                            let closing = self.shift();
                            match expect_symbol(closing, Symbol::CloseParen) {
                                Ok(()) => {},
                                Err(er) => {
                                    return Err(er);
                                },
                            }
                            Ok(
                                Expr {
                                    attrs,
                                    value: Value::App(App { func: name.clone(), args }),
                                },
                            )
                        }
                    } else {
                        Ok(Expr { attrs, value: Value::Id(name.clone()) })
                    }
                }
            },
            Sym::String(s2) => Ok(Expr { attrs, value: Value::String(s2.clone()) }),
            Sym::Number(num) => Ok(Expr { attrs, value: Value::Number(dup_num(num)) }),
            Sym::Symbol(Symbol::OpenParen) => {
                let e = match self.parse_expr() {
                    Ok(e) => e,
                    Err(er) => {
                        return Err(er);
                    },
                };
                let closing = self.shift();
                match expect_symbol(closing, Symbol::CloseParen) {
                    Ok(()) => {},
                    Err(er) => {
                        return Err(er);
                    },
                }
                Ok(Expr { attrs, value: Value::Group(Box::new(e)) })
            },
            Sym::Symbol(Symbol::OpenBracket) => {
                let nxt = self.peek();
                if matches!(&nxt.sym, Sym::Symbol(Symbol::CloseBracket)) {
                    self.shift();
                    let es: Vec<Expr> = Vec::new();
                    proof {
                        assert(exprs_view(es@) =~= Seq::<ExprView>::empty());
                        assert(Seq::<ExprView>::empty() =~= seq![]);
                    }
                    Ok(Expr { attrs, value: Value::Array(es) })
                } else {
                    let es = match self.parse_expr_list() {
                        Ok(v) => v,
                        Err(er) => {
                            return Err(er);
                        },
                    };
                    let closing = self.shift();
                    match expect_symbol(closing, Symbol::CloseBracket) {
                        Ok(()) => {},
                        Err(er) => {
                            return Err(er);
                        },
                    }
                    Ok(Expr { attrs, value: Value::Array(es) })
                }
            },
            Sym::Symbol(Symbol::OpenBrace) => {
                let nxt = self.peek();
                if matches!(&nxt.sym, Sym::Symbol(Symbol::CloseBrace)) {
                    self.shift();
                    let fs: Vec<Field> = Vec::new();
                    proof {
                        assert(fields_view(fs@) =~= Seq::<FieldView>::empty());
                        assert(Seq::<FieldView>::empty() =~= seq![]);
                    }
                    Ok(Expr { attrs, value: Value::Record(fs) })
                } else {
                    let fs = match self.parse_fields() {
                        Ok(v) => v,
                        Err(er) => {
                            return Err(er);
                        },
                    };
                    let closing = self.shift();
                    match expect_symbol(closing, Symbol::CloseBrace) {
                        Ok(()) => {},
                        Err(er) => {
                            return Err(er);
                        },
                    }
                    Ok(Expr { attrs, value: Value::Record(fs) })
                }
            },
            Sym::Operator(op0) => {
                let op = *op0;
                if matches!(op, Operator::Add | Operator::Sub) {
                    let e = match self.parse_expr() {
                        Ok(e) => e,
                        Err(er) => {
                            return Err(er);
                        },
                    };
                    Ok(
                        Expr {
                            attrs,
                            value: Value::Unary(Unary { operator: op, expr: Box::new(e) }),
                        },
                    )
                } else {
                    Err(ParserError::UnexpectedToken(t.line, t.col))
                }
            },
            _ => Err(ParserError::UnexpectedToken(t.line, t.col)),
        }
    }

    /// A climbing parse; see `spec_parse_binary` and `spec_parse_more`.
    pub fn parse_binary(&mut self, min_bind: u64) -> (r: Result<Expr, ParserError>)
        requires
            old(self).wf(),
        ensures
            final(self).wf(),
            final(self).same_buffer(*old(self)),
            final(self).scope == old(self).scope,
            old(self).offset <= final(self).offset,
            r is Ok ==> old(self).offset < final(self).offset,
            expr_matches(
                r,
                spec_parse_binary(
                    old(self).tvs(),
                    old(self).offset as int,
                    min_bind,
                    old(self).scope,
                ),
                final(self).offset as int,
            ),
        decreases self.input@.len() - self.offset, 3int,
    {
        let ghost ts = self.tvs();
        let ghost i0 = self.offset as int;
        let ghost sc = self.scope;
        let ghost inp = self.input;
        let mut lhs = match self.parse_primary() {
            Ok(e) => e,
            Err(er) => {
                return Err(er);
            },
        };
        loop
            invariant
                self.wf(),
                self.input == inp,
                inp == old(self).input,
                self.scope == sc,
                sc == old(self).scope,
                ts == old(self).tvs(),
                i0 == old(self).offset as int,
                i0 < self.offset as int,
                spec_parse_binary(ts, i0, min_bind, sc) == spec_parse_more(
                    ts,
                    self.offset as int,
                    expr_view(lhs),
                    min_bind,
                    sc,
                ),
            decreases inp@.len() - self.offset,
        {
            let t = self.peek();
            match &t.sym {
                Sym::Eof => {
                    return Ok(lhs);
                },
                Sym::Symbol(sy) => {
                    match sy {
                        Symbol::CloseParen | Symbol::Comma | Symbol::CloseBracket
                        | Symbol::CloseBrace => {
                            return Ok(lhs);
                        },
                        Symbol::Dot => {
                            self.shift();
                            let t2 = self.shift();
                            match &t2.sym {
                                Sym::Id(name) => {
                                    let attrs2 = lhs.attrs;
                                    lhs = Expr {
                                        attrs: attrs2,
                                        value: Value::Access(
                                            Access { target: Box::new(lhs), field: name.clone() },
                                        ),
                                    };
                                },
                                _ => {
                                    return Err(ParserError::ExpectedIdent(t2.line, t2.col));
                                },
                            }
                        },
                        _ => {
                            return Err(ParserError::ExpectedOperator(t.line, t.col));
                        },
                    }
                },
                Sym::Operator(op0) => {
                    let op = *op0;
                    let (l, rbp) = binding_pow(op);
                    if l < min_bind {
                        return Ok(lhs);
                    }
                    self.shift();
                    let rhs = match self.parse_binary(rbp) {
                        Ok(e) => e,
                        Err(er) => {
                            return Err(er);
                        },
                    };
                    let attrs2 = lhs.attrs;
                    lhs = Expr {
                        attrs: attrs2,
                        value: Value::Binary(
                            Binary { lhs: Box::new(lhs), operator: op, rhs: Box::new(rhs) },
                        ),
                    };
                },
                Sym::Id(_) => {
                    if is_clause_tok(t) {
                        return Ok(lhs);
                    }
                    return Err(ParserError::ExpectedOperator(t.line, t.col));
                },
                _ => {
                    return Err(ParserError::ExpectedOperator(t.line, t.col));
                },
            }
        }
    }

    /// A full expression; see `spec_parse_expr`. At end of input nothing
    /// is consumed: the error is the position-less end-of-input one.
    pub fn parse_expr(&mut self) -> (r: Result<Expr, ParserError>)
        requires
            old(self).wf(),
        ensures
            final(self).wf(),
            final(self).same_buffer(*old(self)),
            final(self).scope == old(self).scope,
            old(self).offset <= final(self).offset,
            r is Ok ==> old(self).offset < final(self).offset,
            old(self).tvs()[old(self).offset as int].sym is Eof ==> final(self).offset == old(
                self,
            ).offset,
            expr_matches(
                r,
                spec_parse_expr(old(self).tvs(), old(self).offset as int, old(self).scope),
                final(self).offset as int,
            ),
        decreases self.input@.len() - self.offset, 4int,
    {
        let t = self.peek();
        match &t.sym {
            Sym::Eof => Err(ParserError::UnexpectedEof),
            Sym::Id(_) | Sym::String(_) | Sym::Number(_) => self.parse_binary(0),
            Sym::Symbol(sy) => match sy {
                Symbol::OpenParen | Symbol::OpenBracket | Symbol::OpenBrace => self.parse_binary(
                    0,
                ),
                _ => Err(ParserError::UnexpectedToken(t.line, t.col)),
            },
            Sym::Operator(op) => match op {
                Operator::Add | Operator::Sub => self.parse_binary(0),
                _ => Err(ParserError::UnexpectedToken(t.line, t.col)),
            },
        }
    }

    /// A comma-separated expression list; see `spec_parse_expr_list`.
    fn parse_expr_list(&mut self) -> (r: Result<Vec<Expr>, ParserError>)
        requires
            old(self).wf(),
        ensures
            final(self).wf(),
            final(self).same_buffer(*old(self)),
            final(self).scope == old(self).scope,
            old(self).offset <= final(self).offset,
            r is Ok ==> old(self).offset < final(self).offset,
            list_matches(
                r,
                spec_parse_expr_list(old(self).tvs(), old(self).offset as int, old(self).scope),
                final(self).offset as int,
            ),
        decreases self.input@.len() - self.offset, 5int,
    {
        let ghost ts = self.tvs();
        let ghost p0 = self.offset as int;
        let ghost sc = self.scope;
        let ghost inp = self.input;
        let ghost target = spec_parse_expr_list(ts, p0, sc);
        let mut items: Vec<Expr> = Vec::new();
        proof {
            match spec_parse_expr_list(ts, p0, sc) {
                Ok((sv, j)) => {
                    assert(exprs_view(items@) + sv =~= sv);
                },
                Err(_) => {},
            }
        }
        loop
            invariant
                self.wf(),
                self.input == inp,
                inp == old(self).input,
                self.scope == sc,
                sc == old(self).scope,
                ts == old(self).tvs(),
                p0 == old(self).offset as int,
                p0 <= self.offset as int,
                items@.len() > 0 ==> p0 < self.offset as int,
                target == spec_parse_expr_list(ts, p0, sc),
                target == list_glue(
                    exprs_view(items@),
                    spec_parse_expr_list(ts, self.offset as int, sc),
                ),
            decreases inp@.len() - self.offset,
        {
            let ghost cur = self.offset as int;
            let e = match self.parse_expr() {
                Ok(e) => e,
                Err(er) => {
                    return Err(er);
                },
            };
            let t = self.peek();
            if matches!(&t.sym, Sym::Symbol(Symbol::Comma)) {
                self.shift();
                proof {
                    assert(spec_parse_expr_list(ts, cur, sc) == list_glue(
                        seq![expr_view(e)],
                        spec_parse_expr_list(ts, self.offset as int, sc),
                    ));
                    lemma_list_glue_push(
                        exprs_view(items@),
                        expr_view(e),
                        spec_parse_expr_list(ts, self.offset as int, sc),
                    );
                    lemma_exprs_push(items@, e);
                }
                items.push(e);
            } else {
                proof {
                    assert(spec_parse_expr_list(ts, cur, sc) == Ok::<
                        (Seq<ExprView>, int),
                        ParserError,
                    >((seq![expr_view(e)], self.offset as int)));
                    lemma_exprs_push(items@, e);
                    assert(exprs_view(items@) + seq![expr_view(e)] =~= exprs_view(
                        items@.push(e),
                    ));
                }
                items.push(e);
                return Ok(items);
            }
        }
    }

    /// A comma-separated record field list; see `spec_parse_fields`.
    fn parse_fields(&mut self) -> (r: Result<Vec<Field>, ParserError>)
        requires
            old(self).wf(),
        ensures
            final(self).wf(),
            final(self).same_buffer(*old(self)),
            final(self).scope == old(self).scope,
            old(self).offset <= final(self).offset,
            r is Ok ==> old(self).offset < final(self).offset,
            fields_matches(
                r,
                spec_parse_fields(old(self).tvs(), old(self).offset as int, old(self).scope),
                final(self).offset as int,
            ),
        decreases self.input@.len() - self.offset, 5int,
    {
        let ghost ts = self.tvs();
        let ghost p0 = self.offset as int;
        let ghost sc = self.scope;
        let ghost inp = self.input;
        let ghost target = spec_parse_fields(ts, p0, sc);
        let mut items: Vec<Field> = Vec::new();
        proof {
            match spec_parse_fields(ts, p0, sc) {
                Ok((sv, j)) => {
                    assert(fields_view(items@) + sv =~= sv);
                },
                Err(_) => {},
            }
        }
        loop
            invariant
                self.wf(),
                self.input == inp,
                inp == old(self).input,
                self.scope == sc,
                sc == old(self).scope,
                ts == old(self).tvs(),
                p0 == old(self).offset as int,
                p0 <= self.offset as int,
                items@.len() > 0 ==> p0 < self.offset as int,
                target == spec_parse_fields(ts, p0, sc),
                target == fields_glue(
                    fields_view(items@),
                    spec_parse_fields(ts, self.offset as int, sc),
                ),
            decreases inp@.len() - self.offset,
        {
            let ghost cur = self.offset as int;
            let t = self.shift();
            let name = match &t.sym {
                Sym::Id(n) => n.clone(),
                _ => {
                    return Err(ParserError::ExpectedIdent(t.line, t.col));
                },
            };
            let t2 = self.shift();
            match expect_symbol(t2, Symbol::Colon) {
                Ok(()) => {},
                Err(er) => {
                    return Err(er);
                },
            }
            let e = match self.parse_expr() {
                Ok(e) => e,
                Err(er) => {
                    return Err(er);
                },
            };
            let f = Field { name, value: e };
            let t3 = self.peek();
            if matches!(&t3.sym, Sym::Symbol(Symbol::Comma)) {
                self.shift();
                proof {
                    assert(spec_parse_fields(ts, cur, sc) == fields_glue(
                        seq![FieldView { name: f.name@, value: expr_view(f.value) }],
                        spec_parse_fields(ts, self.offset as int, sc),
                    ));
                    lemma_fields_glue_push(
                        fields_view(items@),
                        FieldView { name: f.name@, value: expr_view(f.value) },
                        spec_parse_fields(ts, self.offset as int, sc),
                    );
                    lemma_fields_push(items@, f);
                }
                items.push(f);
            } else {
                proof {
                    assert(spec_parse_fields(ts, cur, sc) == Ok::<
                        (Seq<FieldView>, int),
                        ParserError,
                    >(
                        (
                            seq![FieldView { name: f.name@, value: expr_view(f.value) }],
                            self.offset as int,
                        ),
                    ));
                    lemma_fields_push(items@, f);
                    assert(fields_view(items@) + seq![
                        FieldView { name: f.name@, value: expr_view(f.value) },
                    ] =~= fields_view(items@.push(f)));
                }
                items.push(f);
                return Ok(items);
            }
        }
    }

    /// A source's kind; see `spec_parse_source_kind`.
    pub fn parse_source_kind(&mut self) -> (r: Result<SourceKind, ParserError>)
        requires
            old(self).wf(),
        ensures
            final(self).wf(),
            final(self).same_buffer(*old(self)),
            final(self).scope == old(self).scope,
            old(self).offset <= final(self).offset,
            r is Ok ==> old(self).offset < final(self).offset,
            kind_matches(
                r,
                spec_parse_source_kind(old(self).tvs(), old(self).offset as int, old(self).scope),
                final(self).offset as int,
            ),
        decreases self.input@.len() - self.offset, 6int,
    {
        let t = self.shift();
        match &t.sym {
            Sym::Id(name) => {
                if str_is_kw(name.as_str(), Keyword::Events) {
                    Ok(SourceKind::Events)
                } else {
                    Err(ParserError::UnexpectedToken(t.line, t.col))
                }
            },
            Sym::String(s2) => Ok(SourceKind::Subject(s2.clone())),
            Sym::Symbol(Symbol::OpenParen) => {
                let q = match self.parse_query() {
                    Ok(q) => q,
                    Err(er) => {
                        return Err(er);
                    },
                };
                let closing = self.shift();
                match expect_symbol(closing, Symbol::CloseParen) {
                    Ok(()) => {},
                    Err(er) => {
                        return Err(er);
                    },
                }
                Ok(SourceKind::Subquery(Box::new(q)))
            },
            _ => Err(ParserError::UnexpectedToken(t.line, t.col)),
        }
    }

    /// One `from binding in kind` clause; see `spec_parse_source`. When
    /// one of the three fixed leading steps (`from`, the binding
    /// identifier, `in`) mismatches, its error is returned with nothing
    /// consumed beyond that step (each shift clamped at the last token).
    pub fn parse_source(&mut self) -> (r: Result<Source, ParserError>)
        requires
            old(self).wf(),
        ensures
            final(self).wf(),
            final(self).same_buffer(*old(self)),
            final(self).scope == old(self).scope,
            old(self).offset <= final(self).offset,
            r is Ok ==> old(self).offset < final(self).offset,
            !tok_is_kw(old(self).tvs()[old(self).offset as int], Keyword::From)
                ==> final(self).offset as int == (
                if old(self).offset as int + 1 < old(self).input@.len() {
                    old(self).offset as int + 1
                } else {
                    old(self).offset as int
                }),
            tok_is_kw(old(self).tvs()[old(self).offset as int], Keyword::From)
                && !(old(self).tvs()[old(self).offset as int + 1].sym is Id)
                ==> final(self).offset as int == (
                if old(self).offset as int + 2 < old(self).input@.len() {
                    old(self).offset as int + 2
                } else {
                    old(self).offset as int + 1
                }),
            tok_is_kw(old(self).tvs()[old(self).offset as int], Keyword::From)
                && old(self).tvs()[old(self).offset as int + 1].sym is Id
                && !tok_is_kw(old(self).tvs()[old(self).offset as int + 2], Keyword::In)
                ==> final(self).offset as int == (
                if old(self).offset as int + 3 < old(self).input@.len() {
                    old(self).offset as int + 3
                } else {
                    old(self).offset as int + 2
                }),
            source_matches(
                r,
                spec_parse_source(old(self).tvs(), old(self).offset as int, old(self).scope),
                final(self).offset as int,
            ),
        decreases self.input@.len() - self.offset, 7int,
    {
        let t = self.shift();
        match expect_keyword(t, Keyword::From) {
            Ok(()) => {},
            Err(er) => {
                return Err(er);
            },
        }
        let bt = self.shift();
        let binding = match &bt.sym {
            Sym::Id(n) => n.clone(),
            _ => {
                return Err(ParserError::ExpectedIdent(bt.line, bt.col));
            },
        };
        let bpos = Pos { line: bt.line, col: bt.col };
        let t2 = self.shift();
        match expect_keyword(t2, Keyword::In) {
            Ok(()) => {},
            Err(er) => {
                return Err(er);
            },
        }
        let kind = match self.parse_source_kind() {
            Ok(k) => k,
            Err(er) => {
                return Err(er);
            },
        };
        Ok(Source { binding, pos: bpos, kind })
    }

    /// One or more `from` clauses; see `spec_parse_sources`.
    fn parse_sources(&mut self) -> (r: Result<Vec<Source>, ParserError>)
        requires
            old(self).wf(),
        ensures
            final(self).wf(),
            final(self).same_buffer(*old(self)),
            final(self).scope == old(self).scope,
            old(self).offset <= final(self).offset,
            r is Ok ==> old(self).offset < final(self).offset,
            sources_matches(
                r,
                spec_parse_sources(old(self).tvs(), old(self).offset as int, old(self).scope),
                final(self).offset as int,
            ),
        decreases self.input@.len() - self.offset, 8int,
    {
        let ghost ts = self.tvs();
        let ghost p0 = self.offset as int;
        let ghost sc = self.scope;
        let ghost inp = self.input;
        let ghost target = spec_parse_sources(ts, p0, sc);
        let mut items: Vec<Source> = Vec::new();
        proof {
            match spec_parse_sources(ts, p0, sc) {
                Ok((sv, j)) => {
                    assert(sources_view(items@) + sv =~= sv);
                },
                Err(_) => {},
            }
        }
        loop
            invariant
                self.wf(),
                self.input == inp,
                inp == old(self).input,
                self.scope == sc,
                sc == old(self).scope,
                ts == old(self).tvs(),
                p0 == old(self).offset as int,
                p0 <= self.offset as int,
                items@.len() > 0 ==> p0 < self.offset as int,
                target == spec_parse_sources(ts, p0, sc),
                target == sources_glue(
                    sources_view(items@),
                    spec_parse_sources(ts, self.offset as int, sc),
                ),
            decreases inp@.len() - self.offset,
        {
            let ghost cur = self.offset as int;
            let s = match self.parse_source() {
                Ok(s) => s,
                Err(er) => {
                    return Err(er);
                },
            };
            let t = self.peek();
            if token_is_kw(t, Keyword::From) {
                proof {
                    assert(spec_parse_sources(ts, cur, sc) == sources_glue(
                        seq![source_view(s)],
                        spec_parse_sources(ts, self.offset as int, sc),
                    ));
                    lemma_sources_glue_push(
                        sources_view(items@),
                        source_view(s),
                        spec_parse_sources(ts, self.offset as int, sc),
                    );
                    lemma_sources_push(items@, s);
                }
                items.push(s);
            } else {
                proof {
                    assert(spec_parse_sources(ts, cur, sc) == Ok::<
                        (Seq<SourceView>, int),
                        ParserError,
                    >((seq![source_view(s)], self.offset as int)));
                    lemma_sources_push(items@, s);
                    assert(sources_view(items@) + seq![source_view(s)] =~= sources_view(
                        items@.push(s),
                    ));
                }
                items.push(s);
                return Ok(items);
            }
        }
    }

    /// The `where` clause once its keyword is under the cursor; see
    /// `spec_parse_where_clause`.
    pub fn parse_where_clause(&mut self) -> (r: Result<Expr, ParserError>)
        requires
            old(self).wf(),
        ensures
            final(self).wf(),
            final(self).same_buffer(*old(self)),
            final(self).scope == old(self).scope,
            old(self).offset <= final(self).offset,
            r is Ok ==> old(self).offset < final(self).offset,
            expr_matches(
                r,
                spec_parse_where_clause(old(self).tvs(), old(self).offset as int, old(self).scope),
                final(self).offset as int,
            ),
        decreases self.input@.len() - self.offset, 8int,
    {
        let t = self.shift();
        match expect_keyword(t, Keyword::Where) {
            Ok(()) => {},
            Err(er) => {
                return Err(er);
            },
        }
        self.parse_expr()
    }

    /// The clause chain of one query at the current (already deepened)
    /// scope; see `spec_parse_query_at`.
    #[verifier::rlimit(100)]
    fn parse_query_body(&mut self) -> (r: Result<Query, ParserError>)
        requires
            old(self).wf(),
        ensures
            final(self).wf(),
            final(self).same_buffer(*old(self)),
            final(self).scope == old(self).scope,
            old(self).offset <= final(self).offset,
            r is Ok ==> old(self).offset < final(self).offset,
            query_matches(
                r,
                spec_parse_query_at(old(self).tvs(), old(self).offset as int, old(self).scope),
                final(self).offset as int,
            ),
        decreases self.input@.len() - self.offset, 9int,
    {
        let ghost ts = self.tvs();
        let ghost i0 = self.offset as int;
        let ghost inner = self.scope;
        let t0 = self.peek();
        let qattrs = Attrs::new(Pos { line: t0.line, col: t0.col }, self.scope);
        let sources = match self.parse_sources() {
            Ok(v) => v,
            Err(er) => {
                return Err(er);
            },
        };
        let mut predicate: Option<Expr> = None;
        let tw = self.peek();
        if token_is_kw(tw, Keyword::Where) {
            let e = match self.parse_where_clause() {
                Ok(e) => e,
                Err(er) => {
                    return Err(er);
                },
            };
            predicate = Some(e);
        }
        let ghost j2 = self.offset as int;
        let mut group_by: Option<Expr> = None;
        let tg = self.peek();
        if token_is_kw(tg, Keyword::Group) {
            self.shift();
            let tb = self.shift();
            match expect_keyword(tb, Keyword::By) {
                Ok(()) => {},
                Err(er) => {
                    return Err(er);
                },
            }
            let e = match self.parse_expr() {
                Ok(e) => e,
                Err(er) => {
                    return Err(er);
                },
            };
            group_by = Some(e);
        }
        let ghost j3 = self.offset as int;
        let mut order_by: Option<OrderBy> = None;
        let to = self.peek();
        if token_is_kw(to, Keyword::Order) {
            self.shift();
            let tb = self.shift();
            match expect_keyword(tb, Keyword::By) {
                Ok(()) => {},
                Err(er) => {
                    return Err(er);
                },
            }
            let e = match self.parse_expr() {
                Ok(e) => e,
                Err(er) => {
                    return Err(er);
                },
            };
            let td = self.shift();
            if token_is_kw(td, Keyword::Asc) {
                order_by = Some(OrderBy { expr: e, order: Order::Asc });
            } else if token_is_kw(td, Keyword::Desc) {
                order_by = Some(OrderBy { expr: e, order: Order::Desc });
            } else if matches!(&td.sym, Sym::Eof) {
                return Err(ParserError::UnexpectedEof);
            } else {
                return Err(ParserError::UnexpectedToken(td.line, td.col));
            }
        }
        let ghost j4 = self.offset as int;
        let mut limit: Option<Limit> = None;
        let tl = self.peek();
        let is_skip = token_is_kw(tl, Keyword::Skip);
        let is_top = token_is_kw(tl, Keyword::Top);
        if is_skip || is_top {
            self.shift();
            let tn = self.shift();
            match &tn.sym {
                Sym::Eof => {
                    return Err(ParserError::UnexpectedEof);
                },
                Sym::Number(Num::Int(n)) => {
                    limit = Some(
                        if is_skip {
                            Limit::Skip(*n)
                        } else {
                            Limit::Top(*n)
                        },
                    );
                },
                _ => {
                    return Err(ParserError::UnexpectedToken(tn.line, tn.col));
                },
            }
        }
        let ts2 = self.shift();
        match expect_keyword(ts2, Keyword::Select) {
            Ok(()) => {},
            Err(er) => {
                return Err(er);
            },
        }
        let proj = match self.parse_expr() {
            Ok(e) => e,
            Err(er) => {
                return Err(er);
            },
        };
        Ok(
            Query {
                attrs: qattrs,
                sources,
                predicate,
                group_by,
                order_by,
                limit,
                projection: Box::new(proj),
            },
        )
    }

    /// One query: the scope-id counter is deepened for the query's own
    /// clauses and restored afterwards; see `spec_parse_query`.
    pub fn parse_query(&mut self) -> (r: Result<Query, ParserError>)
        requires
            old(self).wf(),
        ensures
            final(self).wf(),
            final(self).same_buffer(*old(self)),
            final(self).scope == old(self).scope,
            old(self).offset <= final(self).offset,
            r is Ok ==> old(self).offset < final(self).offset,
            query_matches(
                r,
                spec_parse_query(old(self).tvs(), old(self).offset as int, old(self).scope),
                final(self).offset as int,
            ),
        decreases self.input@.len() - self.offset, 10int,
    {
        let ghost s0 = self.scope;
        self.scope = self.scope.wrapping_add(1);
        proof {
            assert(self.scope == next_scope(s0));
        }
        let r = self.parse_query_body();
        self.scope = self.scope.wrapping_sub(1);
        proof {
            assert(self.scope == s0);
        }
        r
    }
}

/// Turn a well-formed token buffer into a raw query. The result is
/// exactly `spec_parse(token_views(input@))`: the query must fill the
/// whole buffer up to the end-of-input token.
pub fn parse(input: &[Token]) -> (r: Result<Query, ParserError>)
    requires
        wf_tokens(token_views(input@)),
    ensures
        match (r, spec_parse(token_views(input@))) {
            (Ok(q), Ok(qv)) => query_view(q) == qv,
            (Err(a), Err(b)) => a == b,
            _ => false,
        },
{
    let mut parser = Parser::new(input);
    let q = match parser.parse_query() {
        Ok(q) => q,
        Err(er) => {
            return Err(er);
        },
    };
    let t = parser.peek();
    match &t.sym {
        Sym::Eof => Ok(q),
        _ => Err(ParserError::UnexpectedToken(t.line, t.col)),
    }
}

} // verus!
