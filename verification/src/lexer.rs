//! The lexer: streams source text into positioned tokens, left to right,
//! skipping whitespace between tokens and ending with exactly one
//! end-of-input token.
//!
//! `spec_tokens` is the mathematical definition of tokenization; the
//! executable `tokenize` is proved to return exactly its result. Every
//! token's `(line, col)` is, by construction of the definition, the
//! 1-based position of the token's first character (`line_at`/`col_at`).

use vstd::prelude::*;
use crate::error::LexerError;
use crate::token::{Num, NumView, Operator, Sym, SymView, Symbol, Token, TokenView, token_views};

verus! {

/// Whitespace skipped between tokens.
pub open spec fn is_ws(c: char) -> bool {
    c == ' ' || c == '\t' || c == '\r' || c == '\n'
}

/// An ASCII decimal digit.
pub open spec fn is_digit(c: char) -> bool {
    48 <= c as u32 && c as u32 <= 57
}

/// An ASCII letter, the start of an identifier.
pub open spec fn is_alpha(c: char) -> bool {
    (65 <= c as u32 && c as u32 <= 90) || (97 <= c as u32 && c as u32 <= 122)
}

/// A letter or digit, the continuation of an identifier.
pub open spec fn is_alnum(c: char) -> bool {
    is_alpha(c) || is_digit(c)
}

/// The punctuation symbol a character denotes, if any.
pub open spec fn symbol_of(c: char) -> Option<Symbol> {
    if c == '(' {
        Some(Symbol::OpenParen)
    } else if c == ')' {
        Some(Symbol::CloseParen)
    } else if c == '[' {
        Some(Symbol::OpenBracket)
    } else if c == ']' {
        Some(Symbol::CloseBracket)
    } else if c == '{' {
        Some(Symbol::OpenBrace)
    } else if c == '}' {
        Some(Symbol::CloseBrace)
    } else if c == '.' {
        Some(Symbol::Dot)
    } else if c == ',' {
        Some(Symbol::Comma)
    } else if c == ':' {
        Some(Symbol::Colon)
    } else {
        None
    }
}

/// The single-character operator a character denotes, if any.
/// `< <= > >= !=` need one character of lookahead and are handled apart.
pub open spec fn op1_of(c: char) -> Option<Operator> {
    if c == '+' {
        Some(Operator::Add)
    } else if c == '-' {
        Some(Operator::Sub)
    } else if c == '*' {
        Some(Operator::Mul)
    } else if c == '/' {
        Some(Operator::Div)
    } else if c == '=' {
        Some(Operator::Eq)
    } else {
        None
    }
}

/// The 1-based line of position `i`: one more than the newlines before it.
pub open spec fn line_at(s: Seq<char>, i: int) -> int
    decreases i,
{
    if i <= 0 {
        1
    } else {
        line_at(s, i - 1) + if s[i - 1] == '\n' { 1int } else { 0int }
    }
}

/// The 1-based column of position `i`: its distance to the line's start.
pub open spec fn col_at(s: Seq<char>, i: int) -> int
    decreases i,
{
    if i <= 0 {
        1
    } else if s[i - 1] == '\n' {
        1
    } else {
        col_at(s, i - 1) + 1
    }
}

/// The first position at or after `i` that holds no whitespace.
pub open spec fn scan_ws(s: Seq<char>, i: int) -> int
    decreases s.len() - i,
{
    if 0 <= i < s.len() && is_ws(s[i]) {
        scan_ws(s, i + 1)
    } else {
        i
    }
}

/// The first position at or after `i` that continues no identifier.
pub open spec fn scan_ident(s: Seq<char>, i: int) -> int
    decreases s.len() - i,
{
    if 0 <= i < s.len() && is_alnum(s[i]) {
        scan_ident(s, i + 1)
    } else {
        i
    }
}

/// The first position at or after `i` that holds no digit.
pub open spec fn scan_digits(s: Seq<char>, i: int) -> int
    decreases s.len() - i,
{
    if 0 <= i < s.len() && is_digit(s[i]) {
        scan_digits(s, i + 1)
    } else {
        i
    }
}

/// The position of the first `"` at or after `i`, or the length if none.
pub open spec fn scan_quote(s: Seq<char>, i: int) -> int
    decreases s.len() - i,
{
    if 0 <= i < s.len() {
        if s[i] == '"' {
            i
        } else {
            scan_quote(s, i + 1)
        }
    } else {
        i
    }
}

/// The numeric value of the digit run `s[i..j]`.
pub open spec fn digits_val(s: Seq<char>, i: int, j: int) -> int
    decreases j - i,
{
    if j <= i {
        0
    } else {
        digits_val(s, i, j - 1) * 10 + (s[j - 1] as u32 - 48)
    }
}

/// Ten to the `n`.
pub open spec fn pow10(n: nat) -> int
    decreases n,
{
    if n == 0 {
        1
    } else {
        10 * pow10((n - 1) as nat)
    }
}

/// Where the fraction part of a numeric literal whose digits end at `ie`
/// stops: a `.` starts a fraction only when a digit follows it. This is
/// deliberate: a dot with no digit after it stays the `Dot` punctuation
/// token — `7.e` is the number `7`, a dot, and the identifier `e` — so a
/// numeric literal never ends in a digitless fraction.
pub open spec fn frac_end(s: Seq<char>, ie: int) -> int {
    if ie + 1 < s.len() && s[ie] == '.' && is_digit(s[ie + 1]) {
        scan_digits(s, ie + 1)
    } else {
        ie
    }
}

/// The numeric literal beginning at `j` (a digit): its value and its end,
/// or the lexical error it raises. A literal of at most 19 digits and no
/// fraction or exponent is an integer (19 digits always fit a `u64`); any
/// other shape is carried as its source text. After `e`/`E` the exponent
/// is committed: digits must follow, else the input is incomplete or the
/// offending character is invalid.
pub open spec fn spec_number(s: Seq<char>, j: int) -> Result<(NumView, int), LexerError> {
    let ie = scan_digits(s, j);
    let fe = frac_end(s, ie);
    if fe < s.len() && (s[fe] == 'e' || s[fe] == 'E') {
        let ds = if fe + 1 < s.len() && (s[fe + 1] == '+' || s[fe + 1] == '-') {
            fe + 2
        } else {
            fe + 1
        };
        if ds >= s.len() {
            Err(LexerError::IncompleteInput)
        } else if !is_digit(s[ds]) {
            Err(LexerError::InvalidSymbol(line_at(s, ds) as u32, col_at(s, ds) as u32))
        } else {
            Ok((NumView::Float(s.subrange(j, scan_digits(s, ds))), scan_digits(s, ds)))
        }
    } else if fe > ie {
        Ok((NumView::Float(s.subrange(j, fe)), fe))
    } else if ie - j <= 19 {
        Ok((NumView::Int(digits_val(s, j, ie) as u64), ie))
    } else {
        Ok((NumView::Float(s.subrange(j, ie)), ie))
    }
}

/// Tokenization of `s` from position `i` on: the remaining tokens,
/// ending with the end-of-input token, or the first lexical error.
pub open spec fn spec_tokens(s: Seq<char>, i: int) -> Result<Seq<TokenView>, LexerError>
    decreases s.len() - i, 0int,
{
    let j = scan_ws(s, i);
    if !(i <= j <= s.len()) {
        // scan_ws never leaves [i, len]; the verifier sees that locally.
        Err(LexerError::IncompleteInput)
    } else if j == s.len() {
        Ok(
            seq![
                TokenView {
                    sym: SymView::Eof,
                    line: line_at(s, j) as u32,
                    col: col_at(s, j) as u32,
                },
            ],
        )
    } else {
        let c = s[j];
        let line = line_at(s, j) as u32;
        let col = col_at(s, j) as u32;
        if symbol_of(c) is Some {
            rest_after(s, TokenView { sym: SymView::Symbol(symbol_of(c)->0), line, col }, j + 1)
        } else if op1_of(c) is Some {
            rest_after(s, TokenView { sym: SymView::Operator(op1_of(c)->0), line, col }, j + 1)
        } else if c == '<' {
            if j + 1 < s.len() && s[j + 1] == '=' {
                rest_after(s, TokenView { sym: SymView::Operator(Operator::Lte), line, col }, j + 2)
            } else {
                rest_after(s, TokenView { sym: SymView::Operator(Operator::Lt), line, col }, j + 1)
            }
        } else if c == '>' {
            if j + 1 < s.len() && s[j + 1] == '=' {
                rest_after(s, TokenView { sym: SymView::Operator(Operator::Gte), line, col }, j + 2)
            } else {
                rest_after(s, TokenView { sym: SymView::Operator(Operator::Gt), line, col }, j + 1)
            }
        } else if c == '!' {
            if j + 1 >= s.len() {
                Err(LexerError::IncompleteInput)
            } else if s[j + 1] == '=' {
                rest_after(s, TokenView { sym: SymView::Operator(Operator::Neq), line, col }, j + 2)
            } else {
                Err(LexerError::InvalidSymbol(line, col))
            }
        } else if is_alpha(c) {
            let e = scan_ident(s, j);
            if j < e <= s.len() {
                rest_after(s, TokenView { sym: SymView::Id(s.subrange(j, e)), line, col }, e)
            } else {
                Err(LexerError::IncompleteInput)
            }
        } else if is_digit(c) {
            match spec_number(s, j) {
                Ok((nv, e)) => {
                    if j < e <= s.len() {
                        rest_after(s, TokenView { sym: SymView::Number(nv), line, col }, e)
                    } else {
                        Err(LexerError::IncompleteInput)
                    }
                },
                Err(er) => Err(er),
            }
        } else if c == '"' {
            let q = scan_quote(s, j + 1);
            if q >= s.len() {
                Err(LexerError::IncompleteInput)
            } else if q > j {
                rest_after(
                    s,
                    TokenView { sym: SymView::String(s.subrange(j + 1, q)), line, col },
                    q + 1,
                )
            } else {
                Err(LexerError::IncompleteInput)
            }
        } else {
            Err(LexerError::InvalidSymbol(line, col))
        }
    }
}

/// The token `tm` followed by whatever `s` lexes to from `e` on.
pub open spec fn rest_after(s: Seq<char>, tm: TokenView, e: int) -> Result<
    Seq<TokenView>,
    LexerError,
>
    decreases s.len() - e, 1int,
{
    match spec_tokens(s, e) {
        Ok(rest) => Ok(seq![tm] + rest),
        Err(er) => Err(er),
    }
}

/// Tokens already produced, glued to the outcome of lexing the rest.
pub open spec fn glue(pre: Seq<TokenView>, rest: Result<Seq<TokenView>, LexerError>) -> Result<
    Seq<TokenView>,
    LexerError,
> {
    match rest {
        Ok(ts) => Ok(pre + ts),
        Err(e) => Err(e),
    }
}

/// The executable result `r` is exactly the mathematical outcome `m`.
pub open spec fn lex_matches(
    r: Result<Vec<Token>, LexerError>,
    m: Result<Seq<TokenView>, LexerError>,
) -> bool {
    match (r, m) {
        (Ok(v), Ok(ts)) => token_views(v@) == ts,
        (Err(e1), Err(e2)) => e1 == e2,
        _ => false,
    }
}

/// Prepending a non-terminal token keeps a token sequence well formed.
proof fn lemma_cons_wf(tm: TokenView, rest: Seq<TokenView>)
    requires
        !(tm.sym is Eof),
        rest.len() >= 1,
        rest.last().sym is Eof,
        forall|k: int| 0 <= k < rest.len() - 1 ==> !((#[trigger] rest[k]).sym is Eof),
    ensures
        (seq![tm] + rest).len() == rest.len() + 1,
        (seq![tm] + rest).last().sym is Eof,
        forall|k: int|
            0 <= k < (seq![tm] + rest).len() - 1 ==> !((#[trigger] (seq![tm] + rest)[k]).sym
                is Eof),
{
    assert((seq![tm] + rest).last() == rest.last());
    assert forall|k: int| 0 <= k < (seq![tm] + rest).len() - 1 implies !((#[trigger] (seq![tm]
        + rest)[k]).sym is Eof) by {
        if k > 0 {
            assert((seq![tm] + rest)[k] == rest[k - 1]);
        }
    }
}

/// Lexer totality, in its successful half: whenever tokenization
/// succeeds, it yields at least one token, the last one is the one
/// end-of-input marker, and no earlier token is such a marker. Together
/// with `tokenize` needing no precondition beyond a length bound, this
/// is the totality property of the lexer: it never panics, and a
/// successful run ends with exactly one end-of-input token.
pub proof fn lemma_tokens_wf(s: Seq<char>, i: int)
    requires
        0 <= i <= s.len(),
    ensures
        spec_tokens(s, i) is Ok ==> {
            let ts = spec_tokens(s, i)->Ok_0;
            &&& 1 <= ts.len() <= s.len() - i + 1
            &&& ts.last().sym is Eof
            &&& forall|k: int| 0 <= k < ts.len() - 1 ==> !((#[trigger] ts[k]).sym is Eof)
        },
    decreases s.len() - i,
{
    let j = scan_ws(s, i);
    if i <= j < s.len() {
        let c = s[j];
        if j + 1 <= s.len() {
            lemma_tokens_wf(s, j + 1);
        }
        if j + 2 <= s.len() {
            lemma_tokens_wf(s, j + 2);
        }
        let e1 = scan_ident(s, j);
        if j < e1 <= s.len() {
            lemma_tokens_wf(s, e1);
        }
        if is_digit(c) {
            match spec_number(s, j) {
                Ok((nv, e2)) => {
                    if j < e2 <= s.len() {
                        lemma_tokens_wf(s, e2);
                    }
                },
                Err(_) => {},
            }
        }
        if c == '"' {
            let q = scan_quote(s, j + 1);
            if j < q + 1 <= s.len() {
                lemma_tokens_wf(s, q + 1);
            }
        }
        if spec_tokens(s, i) is Ok {
            match spec_tokens(s, i) {
                Ok(ts) => {
                    assert(ts.last().sym is Eof && forall|k: int|
                        0 <= k < ts.len() - 1 ==> !((#[trigger] ts[k]).sym is Eof)) by {
                        let tm = ts[0];
                        let rest = ts.subrange(1, ts.len() as int);
                        assert(ts =~= seq![tm] + rest);
                        lemma_cons_wf(tm, rest);
                    }
                },
                Err(_) => {},
            }
        }
    }
}

/// The start positions of the tokens of `s` from `i` on, in step with
/// `spec_tokens`: each token begins at the first non-whitespace position
/// after its predecessor ends, and the end-of-input token begins at the
/// length of the text.
pub open spec fn spec_token_starts(s: Seq<char>, i: int) -> Seq<int>
    decreases s.len() - i, 0int,
{
    let j = scan_ws(s, i);
    if !(i <= j <= s.len()) {
        seq![]
    } else if j == s.len() {
        seq![j]
    } else {
        let c = s[j];
        if symbol_of(c) is Some || op1_of(c) is Some {
            starts_after(s, j, j + 1)
        } else if c == '<' || c == '>' {
            if j + 1 < s.len() && s[j + 1] == '=' {
                starts_after(s, j, j + 2)
            } else {
                starts_after(s, j, j + 1)
            }
        } else if c == '!' {
            if j + 1 < s.len() && s[j + 1] == '=' {
                starts_after(s, j, j + 2)
            } else {
                seq![]
            }
        } else if is_alpha(c) {
            let e = scan_ident(s, j);
            if j < e <= s.len() {
                starts_after(s, j, e)
            } else {
                seq![]
            }
        } else if is_digit(c) {
            match spec_number(s, j) {
                Ok((nv, e)) => if j < e <= s.len() {
                    starts_after(s, j, e)
                } else {
                    seq![]
                },
                Err(_) => seq![],
            }
        } else if c == '"' {
            let q = scan_quote(s, j + 1);
            if q < s.len() && q > j {
                starts_after(s, j, q + 1)
            } else {
                seq![]
            }
        } else {
            seq![]
        }
    }
}

/// The start `j`, then the starts of the remaining tokens from `e` on.
pub open spec fn starts_after(s: Seq<char>, j: int, e: int) -> Seq<int>
    decreases s.len() - e, 1int,
{
    seq![j] + spec_token_starts(s, e)
}

/// Round-trip of position tracking: every token's `(line, col)` is the
/// 1-based line and column of the position at which the token starts in
/// the source text, token for token.
pub proof fn lemma_token_positions(s: Seq<char>, i: int)
    requires
        0 <= i <= s.len(),
    ensures
        spec_tokens(s, i) is Ok ==> {
            let ts = spec_tokens(s, i)->Ok_0;
            let ps = spec_token_starts(s, i);
            &&& ps.len() == ts.len()
            &&& forall|k: int|
                0 <= k < ts.len() ==> i <= #[trigger] ps[k] <= s.len() && ts[k].line == line_at(
                    s,
                    ps[k],
                ) as u32 && ts[k].col == col_at(s, ps[k]) as u32
        },
    decreases s.len() - i,
{
    let j = scan_ws(s, i);
    if i <= j < s.len() {
        let c = s[j];
        if j + 1 <= s.len() {
            lemma_token_positions(s, j + 1);
        }
        if j + 2 <= s.len() {
            lemma_token_positions(s, j + 2);
        }
        let e1 = scan_ident(s, j);
        if j < e1 <= s.len() {
            lemma_token_positions(s, e1);
        }
        if is_digit(c) {
            match spec_number(s, j) {
                Ok((nv, e2)) => {
                    if j < e2 <= s.len() {
                        lemma_token_positions(s, e2);
                    }
                },
                Err(_) => {},
            }
        }
        if c == '"' {
            let q = scan_quote(s, j + 1);
            if j < q + 1 <= s.len() {
                lemma_token_positions(s, q + 1);
            }
        }
        if spec_tokens(s, i) is Ok {
            match spec_tokens(s, i) {
                Ok(ts) => {
                    let ps = spec_token_starts(s, i);
                    assert(ps.len() == ts.len() && forall|k: int|
                        0 <= k < ts.len() ==> i <= #[trigger] ps[k] <= s.len() && ts[k].line
                            == line_at(s, ps[k]) as u32 && ts[k].col == col_at(s, ps[k]) as u32)
                        by {
                        assert forall|k: int| 0 <= k < ts.len() implies i <= #[trigger] ps[k]
                            <= s.len() && ts[k].line == line_at(s, ps[k]) as u32 && ts[k].col
                            == col_at(s, ps[k]) as u32 by {
                            if k > 0 {
                                let rest = spec_tokens(s, i)->Ok_0.subrange(
                                    1,
                                    spec_tokens(s, i)->Ok_0.len() as int,
                                );
                                assert(ts[k] == rest[k - 1]);
                            }
                        }
                    }
                },
                Err(_) => {},
            }
        }
    }
}

fn ch_is_ws(c: char) -> (b: bool)
    ensures
        b == is_ws(c),
{
    c == ' ' || c == '\t' || c == '\r' || c == '\n'
}

fn ch_is_digit(c: char) -> (b: bool)
    ensures
        b == is_digit(c),
{
    let u = c as u32;
    48 <= u && u <= 57
}

fn ch_is_alpha(c: char) -> (b: bool)
    ensures
        b == is_alpha(c),
{
    let u = c as u32;
    (65 <= u && u <= 90) || (97 <= u && u <= 122)
}

fn ch_is_alnum(c: char) -> (b: bool)
    ensures
        b == is_alnum(c),
{
    ch_is_alpha(c) || ch_is_digit(c)
}

fn exec_symbol_of(c: char) -> (r: Option<Symbol>)
    ensures
        r == symbol_of(c),
{
    if c == '(' {
        Some(Symbol::OpenParen)
    } else if c == ')' {
        Some(Symbol::CloseParen)
    } else if c == '[' {
        Some(Symbol::OpenBracket)
    } else if c == ']' {
        Some(Symbol::CloseBracket)
    } else if c == '{' {
        Some(Symbol::OpenBrace)
    } else if c == '}' {
        Some(Symbol::CloseBrace)
    } else if c == '.' {
        Some(Symbol::Dot)
    } else if c == ',' {
        Some(Symbol::Comma)
    } else if c == ':' {
        Some(Symbol::Colon)
    } else {
        None
    }
}

fn exec_op1_of(c: char) -> (r: Option<Operator>)
    ensures
        r == op1_of(c),
{
    if c == '+' {
        Some(Operator::Add)
    } else if c == '-' {
        Some(Operator::Sub)
    } else if c == '*' {
        Some(Operator::Mul)
    } else if c == '/' {
        Some(Operator::Div)
    } else if c == '=' {
        Some(Operator::Eq)
    } else {
        None
    }
}

/// The value of a digit run of at most 19 digits, which always fits `u64`.
fn digits_to_u64(s: &str, from: usize, to: usize) -> (v: u64)
    requires
        from <= to && to <= s@.len(),
        to - from <= 19,
        forall|m: int| from <= m < to ==> is_digit(#[trigger] s@[m]),
    ensures
        v as int == digits_val(s@, from as int, to as int),
{
    proof {
        reveal_with_fuel(pow10, 20);
        assert(pow10(19) == 10_000_000_000_000_000_000);
    }
    let mut acc: u64 = 0;
    let mut k = from;
    while k < to
        invariant
            from <= k <= to,
            to <= s@.len(),
            to - from <= 19,
            forall|m: int| from <= m < to ==> is_digit(#[trigger] s@[m]),
            acc as int == digits_val(s@, from as int, k as int),
            (acc as int) < pow10((k - from) as nat),
            pow10(19) == 10_000_000_000_000_000_000,
        decreases to - k,
    {
        let c = s.get_char(k);
        let d = (c as u32 - 48) as u64;
        proof {
            assert(pow10(((k + 1) - from) as nat) == 10 * pow10((k - from) as nat));
            assert(pow10((k - from) as nat) <= pow10(18)) by {
                lemma_pow10_le((k - from) as nat, 18);
            }
            assert(pow10(18) * 10 == pow10(19));
        }
        acc = acc * 10 + d;
        k = k + 1;
    }
    acc
}

/// `pow10` is monotone in its exponent.
proof fn lemma_pow10_le(a: nat, b: nat)
    requires
        a <= b,
    ensures
        pow10(a) <= pow10(b),
    decreases b,
{
    if a < b {
        lemma_pow10_le(a, (b - 1) as nat);
        assert(pow10(b) == 10 * pow10((b - 1) as nat));
        assert(pow10(a) >= 1) by { lemma_pow10_pos(a) };
    }
}

proof fn lemma_pow10_pos(a: nat)
    ensures
        pow10(a) >= 1,
    decreases a,
{
    if a > 0 {
        lemma_pow10_pos((a - 1) as nat);
    }
}

/// Passing one character that is no newline moves the column by one.
proof fn lemma_pos_step(s: Seq<char>, p: int)
    requires
        0 <= p < s.len(),
        s[p] != '\n',
    ensures
        line_at(s, p + 1) == line_at(s, p),
        col_at(s, p + 1) == col_at(s, p) + 1,
{
}

/// Passing two characters that are no newlines moves the column by two.
proof fn lemma_pos_step2(s: Seq<char>, p: int)
    requires
        0 <= p,
        p + 1 < s.len(),
        s[p] != '\n',
        s[p + 1] != '\n',
    ensures
        line_at(s, p + 2) == line_at(s, p),
        col_at(s, p + 2) == col_at(s, p) + 2,
{
    lemma_pos_step(s, p);
    lemma_pos_step(s, p + 1);
}

/// The token models of a pushed sequence are the pushed token models.
proof fn lemma_views_push(ts: Seq<Token>, t: Token)
    ensures
        token_views(ts.push(t)) =~= token_views(ts).push(t@),
{
}

/// One lexing step: if the definition produces token `t` and then the rest
/// from `e`, pushing `t` keeps the gluing invariant.
proof fn lemma_step(out_old: Seq<Token>, t: Token, s: Seq<char>, i0: int, e: int)
    requires
        spec_tokens(s, i0) == rest_after(s, t@, e),
        glue(token_views(out_old), spec_tokens(s, i0)) == spec_tokens(s, 0),
    ensures
        glue(token_views(out_old.push(t)), spec_tokens(s, e)) == spec_tokens(s, 0),
{
    lemma_views_push(out_old, t);
    match spec_tokens(s, e) {
        Ok(rest) => {
            assert(token_views(out_old) + (seq![t@] + rest) =~= token_views(out_old.push(t))
                + rest);
        },
        Err(_) => {},
    }
}

/// Common bookkeeping of the lexer's loops: the cursor is in range and
/// `line`/`col` are the 1-based position of the cursor.
pub open spec fn pos_ok(s: Seq<char>, i: int, line: u32, col: u32) -> bool {
    &&& 0 <= i <= s.len()
    &&& line as int == line_at(s, i)
    &&& col as int == col_at(s, i)
    &&& line as int <= 1 + i
    &&& col as int <= 1 + i
}

/// Turn query text into its token sequence, or report the first lexical
/// error. The result is exactly `spec_tokens(input@, 0)`: tokens appear
/// left to right, each carrying the 1-based line and column of its first
/// character, and a successful result ends with the one end-of-input token.
#[verifier::rlimit(100)]
pub fn tokenize(input: &str) -> (r: Result<Vec<Token>, LexerError>)
    requires
        input@.len() < 0xFFFF_FFFE,
    ensures
        lex_matches(r, spec_tokens(input@, 0)),
{
    let ghost s = input@;
    let n = input.unicode_len();
    let mut i: usize = 0;
    let mut line: u32 = 1;
    let mut col: u32 = 1;
    let mut out: Vec<Token> = Vec::new();
    loop
        invariant
            n == s.len(),
            n < 0xFFFF_FFFE,
            s == input@,
            pos_ok(s, i as int, line, col),
            glue(token_views(out@), spec_tokens(s, i as int)) == spec_tokens(s, 0),
        decreases n - i,
    {
        let ghost i0 = i as int;
        while i < n && ch_is_ws(input.get_char(i))
            invariant
                n == s.len(),
                n < 0xFFFF_FFFE,
                s == input@,
                pos_ok(s, i as int, line, col),
                i0 <= i as int,
                scan_ws(s, i as int) == scan_ws(s, i0),
            decreases n - i,
        {
            let c = input.get_char(i);
            if c == '\n' {
                line = line + 1;
                col = 1;
            } else {
                col = col + 1;
            }
            i = i + 1;
        }
        proof {
            assert(scan_ws(s, i as int) == i as int);
        }
        let ghost j = i as int;
        if i == n {
            let t = Token { sym: Sym::Eof, line, col };
            proof {
                assert(spec_tokens(s, i0) == Ok::<Seq<TokenView>, LexerError>(seq![t@]));
                lemma_views_push(out@, t);
                assert(token_views(out@) + seq![t@] =~= token_views(out@.push(t)));
            }
            out.push(t);
            return Ok(out);
        }
        let c = input.get_char(i);
        let tok_line = line;
        let tok_col = col;
        if let Some(sy) = exec_symbol_of(c) {
            let t = Token { sym: Sym::Symbol(sy), line: tok_line, col: tok_col };
            i = i + 1;
            col = col + 1;
            proof {
                assert(spec_tokens(s, i0) == rest_after(s, t@, i as int));
                lemma_step(out@, t, s, i0, i as int);
            }
            out.push(t);
        } else if let Some(op) = exec_op1_of(c) {
            let t = Token { sym: Sym::Operator(op), line: tok_line, col: tok_col };
            i = i + 1;
            col = col + 1;
            proof {
                assert(spec_tokens(s, i0) == rest_after(s, t@, i as int));
                lemma_step(out@, t, s, i0, i as int);
            }
            out.push(t);
        } else if c == '<' || c == '>' {
            let two = i + 1 < n && input.get_char(i + 1) == '=';
            let op = if c == '<' {
                if two {
                    Operator::Lte
                } else {
                    Operator::Lt
                }
            } else {
                if two {
                    Operator::Gte
                } else {
                    Operator::Gt
                }
            };
            let t = Token { sym: Sym::Operator(op), line: tok_line, col: tok_col };
            if two {
                proof {
                    lemma_pos_step2(s, j);
                }
                i = i + 2;
                col = col + 2;
            } else {
                i = i + 1;
                col = col + 1;
            }
            proof {
                assert(spec_tokens(s, i0) == rest_after(s, t@, i as int));
                lemma_step(out@, t, s, i0, i as int);
            }
            out.push(t);
        } else if c == '!' {
            if i + 1 >= n {
                proof {
                    assert(spec_tokens(s, i0) == Err::<Seq<TokenView>, LexerError>(
                        LexerError::IncompleteInput,
                    ));
                }
                return Err(LexerError::IncompleteInput);
            }
            let c2 = input.get_char(i + 1);
            if c2 == '=' {
                let t = Token { sym: Sym::Operator(Operator::Neq), line: tok_line, col: tok_col };
                proof {
                    lemma_pos_step2(s, j);
                }
                i = i + 2;
                col = col + 2;
                proof {
                    assert(spec_tokens(s, i0) == rest_after(s, t@, i as int));
                    lemma_step(out@, t, s, i0, i as int);
                }
                out.push(t);
            } else {
                proof {
                    assert(spec_tokens(s, i0) == Err::<Seq<TokenView>, LexerError>(
                        LexerError::InvalidSymbol(tok_line, tok_col),
                    ));
                }
                return Err(LexerError::InvalidSymbol(tok_line, tok_col));
            }
        } else if ch_is_alpha(c) {
            let start = i;
            i = i + 1;
            col = col + 1;
            while i < n && ch_is_alnum(input.get_char(i))
                invariant
                    n == s.len(),
                    n < 0xFFFF_FFFE,
                    s == input@,
                    pos_ok(s, i as int, line, col),
                    j < i as int <= n,
                    scan_ident(s, i as int) == scan_ident(s, j),
                decreases n - i,
            {
                i = i + 1;
                col = col + 1;
            }
            proof {
                assert(scan_ident(s, i as int) == i as int);
            }
            let name = input.substring_char(start, i).to_owned();
            let t = Token { sym: Sym::Id(name), line: tok_line, col: tok_col };
            proof {
                assert(t@.sym == SymView::Id(s.subrange(j, i as int)));
                assert(spec_tokens(s, i0) == rest_after(s, t@, i as int));
                lemma_step(out@, t, s, i0, i as int);
            }
            out.push(t);
        } else if ch_is_digit(c) {
            let start = i;
            while i < n && ch_is_digit(input.get_char(i))
                invariant
                    n == s.len(),
                    n < 0xFFFF_FFFE,
                    s == input@,
                    pos_ok(s, i as int, line, col),
                    j <= i as int <= n,
                    scan_digits(s, i as int) == scan_digits(s, j),
                    forall|m: int| j <= m < i as int ==> is_digit(#[trigger] s[m]),
                decreases n - i,
            {
                i = i + 1;
                col = col + 1;
            }
            proof {
                assert(scan_digits(s, i as int) == i as int);
            }
            let ghost ie = i as int;
            let int_end = i;
            let mut is_float = false;
            if i + 1 < n && input.get_char(i) == '.' && ch_is_digit(input.get_char(i + 1)) {
                is_float = true;
                proof {
                    lemma_pos_step2(s, ie);
                }
                i = i + 2;
                col = col + 2;
                while i < n && ch_is_digit(input.get_char(i))
                    invariant
                        n == s.len(),
                        n < 0xFFFF_FFFE,
                        s == input@,
                        pos_ok(s, i as int, line, col),
                        ie + 2 <= i as int <= n,
                        scan_digits(s, i as int) == scan_digits(s, ie + 1),
                    decreases n - i,
                {
                    i = i + 1;
                    col = col + 1;
                }
                proof {
                    assert(scan_digits(s, i as int) == i as int);
                }
            }
            let ghost fe = i as int;
            proof {
                assert(fe == frac_end(s, ie));
            }
            let mut has_exp = false;
            if i < n {
                let ce = input.get_char(i);
                if ce == 'e' || ce == 'E' {
                    has_exp = true;
                }
            }
            let t: Token;
            if has_exp {
                proof {
                    lemma_pos_step(s, fe);
                }
                i = i + 1;
                col = col + 1;
                if i < n {
                    let cs = input.get_char(i);
                    if cs == '+' || cs == '-' {
                        proof {
                            lemma_pos_step(s, fe + 1);
                        }
                        i = i + 1;
                        col = col + 1;
                    }
                }
                let ghost ds = i as int;
                if i >= n {
                    proof {
                        assert(spec_tokens(s, i0) == Err::<Seq<TokenView>, LexerError>(
                            LexerError::IncompleteInput,
                        ));
                    }
                    return Err(LexerError::IncompleteInput);
                }
                let cd = input.get_char(i);
                if !ch_is_digit(cd) {
                    proof {
                        assert(spec_tokens(s, i0) == Err::<Seq<TokenView>, LexerError>(
                            LexerError::InvalidSymbol(line, col),
                        ));
                    }
                    return Err(LexerError::InvalidSymbol(line, col));
                }
                proof {
                    lemma_pos_step(s, ds);
                }
                i = i + 1;
                col = col + 1;
                while i < n && ch_is_digit(input.get_char(i))
                    invariant
                        n == s.len(),
                        n < 0xFFFF_FFFE,
                        s == input@,
                        pos_ok(s, i as int, line, col),
                        ds < i as int <= n,
                        scan_digits(s, i as int) == scan_digits(s, ds),
                    decreases n - i,
                {
                    i = i + 1;
                    col = col + 1;
                }
                proof {
                    assert(scan_digits(s, i as int) == i as int);
                }
                let text = input.substring_char(start, i).to_owned();
                t = Token { sym: Sym::Number(Num::Float(text)), line: tok_line, col: tok_col };
                proof {
                    assert(spec_number(s, j) == Ok::<(NumView, int), LexerError>(
                        (NumView::Float(s.subrange(j, i as int)), i as int),
                    ));
                }
            } else if is_float {
                let text = input.substring_char(start, i).to_owned();
                t = Token { sym: Sym::Number(Num::Float(text)), line: tok_line, col: tok_col };
                proof {
                    assert(spec_number(s, j) == Ok::<(NumView, int), LexerError>(
                        (NumView::Float(s.subrange(j, i as int)), i as int),
                    ));
                }
            } else if int_end - start <= 19 {
                let v = digits_to_u64(input, start, int_end);
                t = Token { sym: Sym::Number(Num::Int(v)), line: tok_line, col: tok_col };
                proof {
                    assert(spec_number(s, j) == Ok::<(NumView, int), LexerError>(
                        (NumView::Int(digits_val(s, j, ie) as u64), ie),
                    ));
                }
            } else {
                let text = input.substring_char(start, i).to_owned();
                t = Token { sym: Sym::Number(Num::Float(text)), line: tok_line, col: tok_col };
                proof {
                    assert(spec_number(s, j) == Ok::<(NumView, int), LexerError>(
                        (NumView::Float(s.subrange(j, i as int)), i as int),
                    ));
                }
            }
            proof {
                assert(spec_tokens(s, i0) == rest_after(s, t@, i as int));
                lemma_step(out@, t, s, i0, i as int);
            }
            out.push(t);
        } else if c == '"' {
            let start = i;
            i = i + 1;
            col = col + 1;
            while i < n && input.get_char(i) != '"'
                invariant
                    n == s.len(),
                    n < 0xFFFF_FFFE,
                    s == input@,
                    pos_ok(s, i as int, line, col),
                    j < i as int <= n,
                    scan_quote(s, i as int) == scan_quote(s, j + 1),
                decreases n - i,
            {
                let c2 = input.get_char(i);
                if c2 == '\n' {
                    line = line + 1;
                    col = 1;
                } else {
                    col = col + 1;
                }
                i = i + 1;
            }
            if i >= n {
                proof {
                    assert(scan_quote(s, i as int) == i as int);
                    assert(spec_tokens(s, i0) == Err::<Seq<TokenView>, LexerError>(
                        LexerError::IncompleteInput,
                    ));
                }
                return Err(LexerError::IncompleteInput);
            }
            proof {
                assert(scan_quote(s, i as int) == i as int);
            }
            let content = input.substring_char(start + 1, i).to_owned();
            let t = Token { sym: Sym::String(content), line: tok_line, col: tok_col };
            i = i + 1;
            col = col + 1;
            proof {
                assert(t@.sym == SymView::String(s.subrange(j + 1, i as int - 1)));
                assert(spec_tokens(s, i0) == rest_after(s, t@, i as int));
                lemma_step(out@, t, s, i0, i as int);
            }
            out.push(t);
        } else {
            proof {
                assert(spec_tokens(s, i0) == Err::<Seq<TokenView>, LexerError>(
                    LexerError::InvalidSymbol(tok_line, tok_col),
                ));
            }
            return Err(LexerError::InvalidSymbol(tok_line, tok_col));
        }
    }
}

} // verus!
