//! The vocabulary shared by the lexer and the parser: token kinds,
//! operators, punctuation symbols, and contextual keywords.
//!
//! Keywords are not token kinds of their own: they are identifiers whose
//! text the parser matches case-insensitively against the keyword table,
//! so the lexer stays purely lexical.

use vstd::prelude::*;

verus! {

/// A punctuation mark from the fixed set `( ) . , : [ ] { }`.
#[derive(Clone, Copy, PartialEq, Eq, Structural, Debug)]
pub enum Symbol {
    OpenParen,
    CloseParen,
    OpenBracket,
    CloseBracket,
    OpenBrace,
    CloseBrace,
    Dot,
    Comma,
    Colon,
}

/// A binary or unary operator: `+ - * / = != < <= > >=`.
#[derive(Clone, Copy, PartialEq, Eq, Structural, Debug)]
pub enum Operator {
    Add,
    Sub,
    Mul,
    Div,
    Eq,
    Neq,
    Lt,
    Lte,
    Gt,
    Gte,
}

/// A contextual keyword. Keywords are ordinary identifier tokens; the
/// parser decides from position whether an identifier plays a keyword role.
#[derive(Clone, Copy, PartialEq, Eq, Structural, Debug)]
pub enum Keyword {
    From,
    In,
    Where,
    Events,
    Group,
    By,
    Order,
    Asc,
    Desc,
    Skip,
    Top,
    Select,
    True,
    False,
}

/// A numeric literal. A run of at most 19 digits is an integer; any other
/// numeric literal (a decimal point, an exponent, or a longer digit run)
/// is carried as its source text, unevaluated: this front end never
/// computes with numeric values, so nothing is rounded or wrapped.
#[derive(Clone, PartialEq, Debug)]
pub enum Num {
    Int(u64),
    Float(String),
}

/// The kind of a token, with its payload.
#[derive(Clone, PartialEq, Debug)]
pub enum Sym {
    /// The end-of-input marker; a token stream ends with exactly one.
    Eof,
    Symbol(Symbol),
    Operator(Operator),
    Id(String),
    String(String),
    Number(Num),
}

/// A token together with the 1-based line and column of its first character.
#[derive(Clone, PartialEq, Debug)]
pub struct Token {
    pub sym: Sym,
    pub line: u32,
    pub col: u32,
}

/// Mathematical model of a numeric literal: text payloads as `Seq<char>`.
pub enum NumView {
    Int(u64),
    Float(Seq<char>),
}

/// Mathematical model of a token kind.
pub enum SymView {
    Eof,
    Symbol(Symbol),
    Operator(Operator),
    Id(Seq<char>),
    String(Seq<char>),
    Number(NumView),
}

/// Mathematical model of a token.
pub struct TokenView {
    pub sym: SymView,
    pub line: u32,
    pub col: u32,
}

impl View for Num {
    type V = NumView;

    open spec fn view(&self) -> NumView {
        match self {
            Num::Int(n) => NumView::Int(*n),
            Num::Float(t) => NumView::Float(t@),
        }
    }
}

impl View for Sym {
    type V = SymView;

    open spec fn view(&self) -> SymView {
        match self {
            Sym::Eof => SymView::Eof,
            Sym::Symbol(s) => SymView::Symbol(*s),
            Sym::Operator(o) => SymView::Operator(*o),
            Sym::Id(n) => SymView::Id(n@),
            Sym::String(s) => SymView::String(s@),
            Sym::Number(n) => SymView::Number(n@),
        }
    }
}

impl View for Token {
    type V = TokenView;

    open spec fn view(&self) -> TokenView {
        TokenView { sym: self.sym@, line: self.line, col: self.col }
    }
}

/// The models of a sequence of tokens.
pub open spec fn token_views(ts: Seq<Token>) -> Seq<TokenView> {
    ts.map_values(|t: Token| t@)
}

/// The characters of a keyword, in lower case.
pub open spec fn kw_chars(k: Keyword) -> Seq<char> {
    match k {
        Keyword::From => seq!['f', 'r', 'o', 'm'],
        Keyword::In => seq!['i', 'n'],
        Keyword::Where => seq!['w', 'h', 'e', 'r', 'e'],
        Keyword::Events => seq!['e', 'v', 'e', 'n', 't', 's'],
        Keyword::Group => seq!['g', 'r', 'o', 'u', 'p'],
        Keyword::By => seq!['b', 'y'],
        Keyword::Order => seq!['o', 'r', 'd', 'e', 'r'],
        Keyword::Asc => seq!['a', 's', 'c'],
        Keyword::Desc => seq!['d', 'e', 's', 'c'],
        Keyword::Skip => seq!['s', 'k', 'i', 'p'],
        Keyword::Top => seq!['t', 'o', 'p'],
        Keyword::Select => seq!['s', 'e', 'l', 'e', 'c', 't'],
        Keyword::True => seq!['t', 'r', 'u', 'e'],
        Keyword::False => seq!['f', 'a', 'l', 's', 'e'],
    }
}

/// An upper-case ASCII letter.
pub open spec fn is_upper(c: char) -> bool {
    65 <= c as u32 && c as u32 <= 90
}

/// Two characters are equal up to ASCII case.
pub open spec fn eq_ci_char(a: char, b: char) -> bool {
    ||| a == b
    ||| (is_upper(a) && a as u32 + 32 == b as u32)
    ||| (is_upper(b) && b as u32 + 32 == a as u32)
}

/// Two character sequences are equal up to ASCII case.
pub open spec fn eq_ci(a: Seq<char>, b: Seq<char>) -> bool {
    a.len() == b.len() && forall|i: int| 0 <= i < a.len() ==> eq_ci_char(a[i], b[i])
}

/// An identifier's text plays the role of keyword `k`.
pub open spec fn is_kw(s: Seq<char>, k: Keyword) -> bool {
    eq_ci(s, kw_chars(k))
}

/// The keyword's text as a string slice.
pub fn kw_str(k: Keyword) -> (r: &'static str)
    ensures
        r@ == kw_chars(k),
{
    match k {
        Keyword::From => {
            proof { reveal_strlit("from"); }
            let r = "from";
            proof { assert(r@ =~= kw_chars(Keyword::From)); }
            r
        },
        Keyword::In => {
            proof { reveal_strlit("in"); }
            let r = "in";
            proof { assert(r@ =~= kw_chars(Keyword::In)); }
            r
        },
        Keyword::Where => {
            proof { reveal_strlit("where"); }
            let r = "where";
            proof { assert(r@ =~= kw_chars(Keyword::Where)); }
            r
        },
        Keyword::Events => {
            proof { reveal_strlit("events"); }
            let r = "events";
            proof { assert(r@ =~= kw_chars(Keyword::Events)); }
            r
        },
        Keyword::Group => {
            proof { reveal_strlit("group"); }
            let r = "group";
            proof { assert(r@ =~= kw_chars(Keyword::Group)); }
            r
        },
        Keyword::By => {
            proof { reveal_strlit("by"); }
            let r = "by";
            proof { assert(r@ =~= kw_chars(Keyword::By)); }
            r
        },
        Keyword::Order => {
            proof { reveal_strlit("order"); }
            let r = "order";
            proof { assert(r@ =~= kw_chars(Keyword::Order)); }
            r
        },
        Keyword::Asc => {
            proof { reveal_strlit("asc"); }
            let r = "asc";
            proof { assert(r@ =~= kw_chars(Keyword::Asc)); }
            r
        },
        Keyword::Desc => {
            proof { reveal_strlit("desc"); }
            let r = "desc";
            proof { assert(r@ =~= kw_chars(Keyword::Desc)); }
            r
        },
        Keyword::Skip => {
            proof { reveal_strlit("skip"); }
            let r = "skip";
            proof { assert(r@ =~= kw_chars(Keyword::Skip)); }
            r
        },
        Keyword::Top => {
            proof { reveal_strlit("top"); }
            let r = "top";
            proof { assert(r@ =~= kw_chars(Keyword::Top)); }
            r
        },
        Keyword::Select => {
            proof { reveal_strlit("select"); }
            let r = "select";
            proof { assert(r@ =~= kw_chars(Keyword::Select)); }
            r
        },
        Keyword::True => {
            proof { reveal_strlit("true"); }
            let r = "true";
            proof { assert(r@ =~= kw_chars(Keyword::True)); }
            r
        },
        Keyword::False => {
            proof { reveal_strlit("false"); }
            let r = "false";
            proof { assert(r@ =~= kw_chars(Keyword::False)); }
            r
        },
    }
}

/// Case-insensitive comparison of two characters, ASCII letters only.
pub fn char_eq_ci(a: char, b: char) -> (r: bool)
    ensures
        r == eq_ci_char(a, b),
{
    let x = a as u32;
    let y = b as u32;
    x == y || (65 <= x && x <= 90 && x + 32 == y) || (65 <= y && y <= 90 && y + 32 == x)
}

/// Does the identifier text `s` play the role of keyword `k`?
/// The match is case-insensitive, as the token model asks.
pub fn str_is_kw(s: &str, k: Keyword) -> (r: bool)
    ensures
        r == is_kw(s@, k),
{
    let kw = kw_str(k);
    let n = s.unicode_len();
    let nk = kw.unicode_len();
    if n != nk {
        return false;
    }
    let mut i: usize = 0;
    while i < n
        invariant
            0 <= i <= n,
            n == s@.len(),
            n == kw_chars(k).len(),
            kw@ == kw_chars(k),
            forall|j: int| 0 <= j < i ==> eq_ci_char(s@[j], kw_chars(k)[j]),
        decreases n - i,
    {
        let a = s.get_char(i);
        let b = kw.get_char(i);
        if !char_eq_ci(a, b) {
            return false;
        }
        i += 1;
    }
    true
}

} // verus!
