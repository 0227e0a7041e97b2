use eventql::analysis::{static_analysis, AnalysisOptions, Scope, TypeInfo, TypeRegistry};
use eventql::ast::{
    Attrs, Expr, Limit, Order, Pos, Query, SourceKind, Type, TypedExpr, TypedQuery,
    TypedSourceKind, TypedValue, Value,
};
use eventql::error::{AnalysisError, Error, LexerError, ParserError};
use eventql::lexer::tokenize;
use eventql::parser::{binding_pow, parse, Parser};
use eventql::token::{Keyword, Num, Operator, Sym, Symbol, Token};
use eventql::parse_query;

fn tok(sym: Sym, line: u32, col: u32) -> Token {
    Token { sym, line, col }
}

fn analyze(input: &str) -> Result<TypedQuery, Error> {
    let q = parse_query(input)?;
    static_analysis(&AnalysisOptions::default(), q).map_err(Error::Analysis)
}

fn record_event_options() -> AnalysisOptions {
    // the built-in event shape: a record with a numeric field `x`
    AnalysisOptions {
        default_scope: Scope::default(),
        event_type_info: TypeInfo {
            tpe: Type::Record,
            props: vec![("x".to_string(), TypeInfo { tpe: Type::Number, props: vec![] })],
        },
    }
}

#[test]
fn test_lexer_all_kind() {
    let tokens = tokenize("foo != 123(]{.:").unwrap();
    assert_eq!(
        tokens,
        vec![
            tok(Sym::Id("foo".to_string()), 1, 1),
            tok(Sym::Operator(Operator::Neq), 1, 5),
            tok(Sym::Number(Num::Int(123)), 1, 8),
            tok(Sym::Symbol(Symbol::OpenParen), 1, 11),
            tok(Sym::Symbol(Symbol::CloseBracket), 1, 12),
            tok(Sym::Symbol(Symbol::OpenBrace), 1, 13),
            tok(Sym::Symbol(Symbol::Dot), 1, 14),
            tok(Sym::Symbol(Symbol::Colon), 1, 15),
            tok(Sym::Eof, 1, 16),
        ]
    );
}

#[test]
fn test_lexer_negative_number() {
    let tokens = tokenize("-123.456").unwrap();
    assert_eq!(
        tokens,
        vec![
            tok(Sym::Operator(Operator::Sub), 1, 1),
            tok(Sym::Number(Num::Float("123.456".to_string())), 1, 2),
            tok(Sym::Eof, 1, 9),
        ]
    );
}

#[test]
fn lexer_tracks_lines_and_columns() {
    let tokens = tokenize("from a\n  in <= \"s\"\n!=").unwrap();
    assert_eq!(
        tokens,
        vec![
            tok(Sym::Id("from".to_string()), 1, 1),
            tok(Sym::Id("a".to_string()), 1, 6),
            tok(Sym::Id("in".to_string()), 2, 3),
            tok(Sym::Operator(Operator::Lte), 2, 6),
            tok(Sym::String("s".to_string()), 2, 9),
            tok(Sym::Operator(Operator::Neq), 3, 1),
            tok(Sym::Eof, 3, 3),
        ]
    );
}

#[test]
fn lexer_ends_with_exactly_one_eof() {
    for input in ["", "   ", "a b c", "1 2.5 3e7", "\"x\" () <= >= < > ! =", "! ="] {
        match tokenize(input) {
            Ok(tokens) => {
                assert!(!tokens.is_empty());
                assert_eq!(tokens.last().unwrap().sym, Sym::Eof);
                assert!(tokens[..tokens.len() - 1].iter().all(|t| t.sym != Sym::Eof));
            }
            Err(_) => {}
        }
    }
}

#[test]
fn lexer_incomplete_string() {
    assert_eq!(tokenize("\"abc"), Err(LexerError::IncompleteInput));
}

#[test]
fn lexer_incomplete_exponent() {
    assert_eq!(tokenize("1e"), Err(LexerError::IncompleteInput));
    assert_eq!(tokenize("1.5e+"), Err(LexerError::IncompleteInput));
    assert_eq!(tokenize("12e+x"), Err(LexerError::InvalidSymbol(1, 5)));
}

#[test]
fn lexer_lone_bang() {
    assert_eq!(tokenize("!"), Err(LexerError::IncompleteInput));
    assert_eq!(tokenize("!x"), Err(LexerError::InvalidSymbol(1, 1)));
}

#[test]
fn lexer_invalid_symbol_position() {
    assert_eq!(tokenize("ab\n %"), Err(LexerError::InvalidSymbol(2, 2)));
}

#[test]
fn lexer_long_digit_run_stays_text() {
    // twenty digits no longer count as an integer literal
    let tokens = tokenize("12345678901234567890").unwrap();
    assert_eq!(
        tokens[0].sym,
        Sym::Number(Num::Float("12345678901234567890".to_string()))
    );
    let tokens = tokenize("1234567890123456789").unwrap();
    assert_eq!(tokens[0].sym, Sym::Number(Num::Int(1234567890123456789)));
}

#[test]
fn lexer_float_shapes() {
    let tokens = tokenize("1.5 2e10 3.25E-2 7.e 1.x").unwrap();
    assert_eq!(tokens[0].sym, Sym::Number(Num::Float("1.5".to_string())));
    assert_eq!(tokens[1].sym, Sym::Number(Num::Float("2e10".to_string())));
    assert_eq!(tokens[2].sym, Sym::Number(Num::Float("3.25E-2".to_string())));
    // a dot not followed by a digit is the Dot symbol, not a fraction
    assert_eq!(tokens[3].sym, Sym::Number(Num::Int(7)));
    assert_eq!(tokens[4].sym, Sym::Symbol(Symbol::Dot));
    assert_eq!(tokens[5].sym, Sym::Id("e".to_string()));
}

fn parse_expr_of(input: &str) -> Expr {
    let tokens = tokenize(input).unwrap();
    let mut parser = Parser::new(tokens.as_slice());
    parser.parse_expr().unwrap()
}

fn as_binary(e: &Expr) -> (&Expr, Operator, &Expr) {
    match &e.value {
        Value::Binary(b) => (&b.lhs, b.operator, &b.rhs),
        other => panic!("expected a binary node, got {:?}", other),
    }
}

fn as_int(e: &Expr) -> u64 {
    match &e.value {
        Value::Number(Num::Int(n)) => *n,
        other => panic!("expected an integer literal, got {:?}", other),
    }
}

#[test]
fn precedence_mul_binds_tighter_on_the_right() {
    let e = parse_expr_of("1 + 2 * 3");
    let (lhs, op, rhs) = as_binary(&e);
    assert_eq!(op, Operator::Add);
    assert_eq!(as_int(lhs), 1);
    let (rl, rop, rr) = as_binary(rhs);
    assert_eq!(rop, Operator::Mul);
    assert_eq!(as_int(rl), 2);
    assert_eq!(as_int(rr), 3);
}

#[test]
fn precedence_mul_binds_tighter_on_the_left() {
    let e = parse_expr_of("1 * 2 + 3");
    let (lhs, op, rhs) = as_binary(&e);
    assert_eq!(op, Operator::Add);
    assert_eq!(as_int(rhs), 3);
    let (ll, lop, lr) = as_binary(lhs);
    assert_eq!(lop, Operator::Mul);
    assert_eq!(as_int(ll), 1);
    assert_eq!(as_int(lr), 2);
}

#[test]
fn precedence_subtraction_is_left_associative() {
    let e = parse_expr_of("1 - 2 - 3");
    let (lhs, op, rhs) = as_binary(&e);
    assert_eq!(op, Operator::Sub);
    assert_eq!(as_int(rhs), 3);
    let (ll, lop, lr) = as_binary(lhs);
    assert_eq!(lop, Operator::Sub);
    assert_eq!(as_int(ll), 1);
    assert_eq!(as_int(lr), 2);
}

#[test]
fn binding_pow_table() {
    assert_eq!(binding_pow(Operator::Add), (10, 11));
    assert_eq!(binding_pow(Operator::Sub), (10, 11));
    assert_eq!(binding_pow(Operator::Mul), (20, 21));
    assert_eq!(binding_pow(Operator::Div), (20, 21));
    assert_eq!(binding_pow(Operator::Eq), (1, 2));
    assert_eq!(binding_pow(Operator::Lt), (1, 2));
}

#[test]
fn attrs_new_starts_unspecified() {
    let a = Attrs::new(Pos { line: 3, col: 7 }, 2);
    assert_eq!(a.pos, Pos { line: 3, col: 7 });
    assert_eq!(a.scope, 2);
    assert_eq!(a.tpe, Type::Unspecified);
}

fn parse_ok(input: &str) -> Query {
    parse_query(input).unwrap()
}

#[test]
fn query_clauses_in_order() {
    let q = parse_ok("from a in events where a = 1 group by a order by a desc skip 5 select a");
    assert_eq!(q.sources.len(), 1);
    assert_eq!(q.sources[0].binding, "a");
    assert!(matches!(q.sources[0].kind, SourceKind::Events));
    assert!(q.predicate.is_some());
    assert!(q.group_by.is_some());
    let ob = q.order_by.as_ref().unwrap();
    assert_eq!(ob.order, Order::Desc);
    assert_eq!(q.limit, Some(Limit::Skip(5)));
}

#[test]
fn query_top_limit_and_asc() {
    let q = parse_ok("from a in events order by a asc top 3 select a");
    assert_eq!(q.limit, Some(Limit::Top(3)));
    assert_eq!(q.order_by.as_ref().unwrap().order, Order::Asc);
}

#[test]
fn query_subject_source() {
    let q = parse_ok("from a in \"things\" select a");
    match &q.sources[0].kind {
        SourceKind::Subject(s) => assert_eq!(s, "things"),
        other => panic!("expected a subject source, got {:?}", other),
    }
}

#[test]
fn query_scope_ids_nest() {
    let q = parse_ok("from x in (from y in events select y) select x");
    assert_eq!(q.attrs.scope, 2);
    match &q.sources[0].kind {
        SourceKind::Subquery(sub) => assert_eq!(sub.attrs.scope, 3),
        other => panic!("expected a subquery source, got {:?}", other),
    }
}

#[test]
fn keywords_match_case_insensitively() {
    let q = parse_ok("FROM a IN Events SELECT tRuE");
    assert!(matches!(q.sources[0].kind, SourceKind::Events));
    assert!(matches!(q.projection.value, Value::Bool(true)));
}

#[test]
fn expression_shapes_parse() {
    let q = parse_ok("from a in events select f(a.x, [1, 2], {m: 1, n: []})");
    match &q.projection.value {
        Value::App(app) => {
            assert_eq!(app.func, "f");
            assert_eq!(app.args.len(), 3);
            assert!(matches!(&app.args[0].value, Value::Access(acc) if acc.field == "x"));
            assert!(matches!(&app.args[1].value, Value::Array(es) if es.len() == 2));
            match &app.args[2].value {
                Value::Record(fs) => {
                    assert_eq!(fs.len(), 2);
                    assert_eq!(fs[0].name, "m");
                    assert_eq!(fs[1].name, "n");
                }
                other => panic!("expected a record literal, got {:?}", other),
            }
        }
        other => panic!("expected an application, got {:?}", other),
    }
}

#[test]
fn unary_applies_to_the_rest() {
    let e = parse_expr_of("-1 + 2");
    match &e.value {
        Value::Unary(u) => {
            assert_eq!(u.operator, Operator::Sub);
            let (l, op, r) = as_binary(&u.expr);
            assert_eq!(op, Operator::Add);
            assert_eq!(as_int(l), 1);
            assert_eq!(as_int(r), 2);
        }
        other => panic!("expected a unary node, got {:?}", other),
    }
}

#[test]
fn error_trailing_where_is_eof() {
    assert_eq!(
        parse_query("from a in events where").unwrap_err(),
        Error::Parser(ParserError::UnexpectedEof)
    );
}

#[test]
fn error_expected_ident() {
    assert_eq!(
        parse_query("from 1 in events select 1").unwrap_err(),
        Error::Parser(ParserError::ExpectedIdent(1, 6))
    );
}

#[test]
fn error_expected_keyword() {
    assert_eq!(
        parse_query("select 1").unwrap_err(),
        Error::Parser(ParserError::ExpectedKeyword(1, 1, Keyword::From))
    );
    assert_eq!(
        parse_query("from a in events").unwrap_err(),
        Error::Parser(ParserError::ExpectedKeyword(1, 17, Keyword::Select))
    );
}

#[test]
fn error_expected_symbol() {
    assert_eq!(
        parse_query("from a in (from b in events select 1 select b").unwrap_err(),
        Error::Parser(ParserError::ExpectedSymbol(1, 38, Symbol::CloseParen))
    );
}

#[test]
fn error_expected_operator() {
    assert_eq!(
        parse_query("from a in events select 1 2").unwrap_err(),
        Error::Parser(ParserError::ExpectedOperator(1, 27))
    );
}

#[test]
fn error_unexpected_token() {
    assert_eq!(
        parse_query("from a in events select )").unwrap_err(),
        Error::Parser(ParserError::UnexpectedToken(1, 25))
    );
    assert_eq!(
        parse_query("from a in 7 select a").unwrap_err(),
        Error::Parser(ParserError::UnexpectedToken(1, 11))
    );
}

#[test]
fn error_lexer_through_pipeline() {
    assert_eq!(
        parse_query("from a in events select ^").unwrap_err(),
        Error::Lexer(LexerError::InvalidSymbol(1, 25))
    );
    assert_eq!(
        parse_query("from a in \"unterminated").unwrap_err(),
        Error::Lexer(LexerError::IncompleteInput)
    );
}

#[test]
fn duplicate_binding_points_at_second_occurrence() {
    let err = analyze("from a in events from a in events select a").unwrap_err();
    assert_eq!(
        err,
        Error::Analysis(AnalysisError::BindingAlreadyExists(1, 23, "a".to_string()))
    );
}

#[test]
fn subquery_projection_type_propagates() {
    let t = analyze("from x in (from y in events select {n: 1}) select x.n").unwrap();
    // x's shape is the subquery's projection: a record with numeric `n`,
    // and the outer projection resolves to that field's type
    match &t.sources[0].kind {
        TypedSourceKind::Subquery(sub) => {
            assert_eq!(sub.attrs.tpe, Type::Record);
            assert_eq!(sub.projection.attrs.tpe, Type::Record);
        }
        other => panic!("expected a subquery source, got {:?}", other),
    }
    assert_eq!(t.projection.attrs.tpe, Type::Number);
    assert_eq!(t.attrs.tpe, Type::Number);
}

#[test]
fn sibling_bindings_invisible_inside_subquery() {
    // a source's body must not see the bindings of its sibling sources:
    // the inner `a` (line 1, column 53) is unresolved, not the sibling
    let err = analyze("from a in events from b in (from c in events select a) select b")
        .unwrap_err();
    assert_eq!(
        err,
        Error::Analysis(AnalysisError::UnresolvedIdentifier(1, 53, "a".to_string()))
    );
}

#[test]
fn root_scope_visible_inside_subquery() {
    // ambient bindings from the configured root scope stay visible at
    // every nesting depth
    let options = AnalysisOptions {
        default_scope: Scope {
            entries: vec![("g".to_string(), TypeInfo { tpe: Type::Number, props: vec![] })],
        },
        event_type_info: TypeInfo::default(),
    };
    let q = parse_ok("from x in (from y in events select g) select g");
    let t = static_analysis(&options, q).unwrap();
    assert_eq!(t.projection.attrs.tpe, Type::Number);
    match &t.sources[0].kind {
        TypedSourceKind::Subquery(sub) => assert_eq!(sub.projection.attrs.tpe, Type::Number),
        other => panic!("expected a subquery source, got {:?}", other),
    }
}

#[test]
fn unresolved_identifier_is_reported() {
    let err = analyze("from a in events select b").unwrap_err();
    assert_eq!(
        err,
        Error::Analysis(AnalysisError::UnresolvedIdentifier(1, 25, "b".to_string()))
    );
}

#[test]
fn field_access_needs_a_record() {
    // the default event shape is unspecified, so `a` is not record-shaped
    let err = analyze("from a in events select a.x").unwrap_err();
    assert_eq!(err, Error::Analysis(AnalysisError::NotARecord(1, 25)));
}

#[test]
fn unknown_field_is_reported() {
    let q = parse_ok("from a in events select a.y");
    let err = static_analysis(&record_event_options(), q).unwrap_err();
    assert_eq!(err, AnalysisError::UnknownField(1, 25, "y".to_string()));
}

#[test]
fn known_field_resolves_through_event_shape() {
    let q = parse_ok("from a in events select a.x");
    let t = static_analysis(&record_event_options(), q).unwrap();
    assert_eq!(t.projection.attrs.tpe, Type::Number);
    match &t.projection.value {
        TypedValue::Access(acc) => {
            assert_eq!(acc.field, "x");
            assert_eq!(acc.target.attrs.tpe, Type::Record);
        }
        other => panic!("expected a field access, got {:?}", other),
    }
}

#[test]
fn literal_types_propagate() {
    let t = analyze("from a in events select {n: 1, s: \"x\", b: true, e: [], v: [1]}").unwrap();
    assert_eq!(t.attrs.tpe, Type::Record);
    match &t.projection.value {
        TypedValue::Record(fs) => {
            assert_eq!(fs[0].value.attrs.tpe, Type::Number);
            assert_eq!(fs[1].value.attrs.tpe, Type::String);
            assert_eq!(fs[2].value.attrs.tpe, Type::Bool);
            assert_eq!(fs[3].value.attrs.tpe, Type::Array);
            assert_eq!(fs[4].value.attrs.tpe, Type::Array);
        }
        other => panic!("expected a record literal, got {:?}", other),
    }
}

#[test]
fn analysis_of_identical_parses_agrees() {
    // the pipeline is pure: two fresh parses of the same text analyze to
    // the same typed tree
    let text = "from x in (from y in events select {n: 1}) where x.n = 1 select x.n";
    let t1 = analyze(text).unwrap();
    let t2 = analyze(text).unwrap();
    assert_eq!(format!("{:?}", t1), format!("{:?}", t2));
}

#[test]
fn analysis_ignores_positions() {
    // the same query written with different spacing: positions differ,
    // everything the analyzer decides is identical
    let t1 = analyze("from a in events select {n: 1}").unwrap();
    let t2 = analyze("from  a\n  in events   select {n: 1}").unwrap();
    assert_eq!(t1.attrs.tpe, t2.attrs.tpe);
    assert_eq!(t1.attrs.scope, t2.attrs.scope);
    assert_eq!(t1.projection.attrs.tpe, t2.projection.attrs.tpe);
    assert_eq!(t1.sources[0].binding, t2.sources[0].binding);
    assert_ne!(format!("{:?}", t1), format!("{:?}", t2));
}

#[test]
fn parse_accepts_hand_built_tokens() {
    // the parser is usable on any well-formed token buffer
    let tokens = vec![
        tok(Sym::Id("from".to_string()), 1, 1),
        tok(Sym::Id("a".to_string()), 1, 6),
        tok(Sym::Id("in".to_string()), 1, 8),
        tok(Sym::Id("events".to_string()), 1, 11),
        tok(Sym::Id("select".to_string()), 1, 18),
        tok(Sym::Number(Num::Int(1)), 1, 25),
        tok(Sym::Eof, 1, 26),
    ];
    let q = parse(tokens.as_slice()).unwrap();
    assert!(matches!(q.projection.value, Value::Number(Num::Int(1))));
}

#[test]
fn registry_types_are_buildable() {
    let mut reg = TypeRegistry::default();
    reg.scopes.push(Scope::default());
    assert_eq!(reg.scopes.len(), 1);
    let e: Option<TypedExpr> = None;
    assert!(e.is_none());
}
