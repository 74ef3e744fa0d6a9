//! The token data model: token kinds, source spans, and the mathematical
//! views that the scanner's contracts are stated over.

use vstd::prelude::*;

verus! {

/// Mathematical view of a [`Span`]: the same three coordinates as
/// unbounded integers.
pub ghost struct SpanModel {
    pub start: int,
    pub end: int,
    pub line: int,
}

/// Line-relative location of one token.
///
/// `start` and `end` are column offsets relative to the line the token
/// stands on (they reset to 0 whenever a newline is consumed), with `end`
/// exclusive.  `line` counts from 1.
#[derive(Debug)]
pub struct Span {
    start: usize,
    end: usize,
    line: usize,
}

impl View for Span {
    type V = SpanModel;

    closed spec fn view(&self) -> SpanModel {
        SpanModel { start: self.start as int, end: self.end as int, line: self.line as int }
    }
}

impl Span {
    /// Builds the span `[start, end)` on line `line`.
    pub fn new(start: usize, end: usize, line: usize) -> (r: Span)
        ensures
            r@ == (SpanModel { start: start as int, end: end as int, line: line as int }),
    {
        Span { start, end, line }
    }

    /// The start column, relative to the span's line.
    pub fn start(&self) -> (r: usize)
        ensures
            r as int == self@.start,
    {
        self.start
    }

    /// The end column (exclusive), relative to the span's line.
    pub fn end(&self) -> (r: usize)
        ensures
            r as int == self@.end,
    {
        self.end
    }

    /// The 1-based line number.
    pub fn line(&self) -> (r: usize)
        ensures
            r as int == self@.line,
    {
        self.line
    }
}

/// Mathematical view of a [`TokType`]: the same variants with every text
/// payload replaced by its character sequence.
pub ghost enum TokModel {
    Assign,
    Equate,
    Plus,
    Minus,
    Multiply,
    Divide,
    Modulo,
    NotEqual,
    True,
    False,
    If,
    Function,
    End,
    Local,
    Nil,
    While,
    Then,
    And,
    Or,
    Not,
    For,
    Do,
    LParen,
    RParen,
    LBrace,
    RBrace,
    Colon,
    Period,
    LessEq,
    GreaterEq,
    Greater,
    Less,
    Newline,
    Undefined(Seq<char>),
    Number(Seq<char>),
    SingleLineString(Seq<char>),
    SingleLineComment(Seq<char>),
    Ident(Seq<char>),
}

/// The closed set of token kinds.
///
/// `Number` carries the raw numeric lexeme (digits with at most one
/// embedded decimal point); its 64-bit floating-point value is obtained by
/// the consumer, outside the scanner.  `Undefined` wraps either a single
/// unclassifiable character or a digits-and-dots run that does not denote
/// a number.
#[derive(Debug)]
pub enum TokType {
    Assign,
    Equate,
    Plus,
    Minus,
    Multiply,
    Divide,
    Modulo,
    NotEqual,
    True,
    False,
    If,
    Function,
    End,
    Local,
    Nil,
    While,
    Then,
    And,
    Or,
    Not,
    For,
    Do,
    LParen,
    RParen,
    LBrace,
    RBrace,
    Colon,
    Period,
    LessEq,
    GreaterEq,
    Greater,
    Less,
    Newline,
    Undefined(String),
    Number(String),
    SingleLineString(String),
    SingleLineComment(String),
    Ident(String),
}

impl View for TokType {
    type V = TokModel;

    open spec fn view(&self) -> TokModel {
        match self {
            TokType::Assign => TokModel::Assign,
            TokType::Equate => TokModel::Equate,
            TokType::Plus => TokModel::Plus,
            TokType::Minus => TokModel::Minus,
            TokType::Multiply => TokModel::Multiply,
            TokType::Divide => TokModel::Divide,
            TokType::Modulo => TokModel::Modulo,
            TokType::NotEqual => TokModel::NotEqual,
            TokType::True => TokModel::True,
            TokType::False => TokModel::False,
            TokType::If => TokModel::If,
            TokType::Function => TokModel::Function,
            TokType::End => TokModel::End,
            TokType::Local => TokModel::Local,
            TokType::Nil => TokModel::Nil,
            TokType::While => TokModel::While,
            TokType::Then => TokModel::Then,
            TokType::And => TokModel::And,
            TokType::Or => TokModel::Or,
            TokType::Not => TokModel::Not,
            TokType::For => TokModel::For,
            TokType::Do => TokModel::Do,
            TokType::LParen => TokModel::LParen,
            TokType::RParen => TokModel::RParen,
            TokType::LBrace => TokModel::LBrace,
            TokType::RBrace => TokModel::RBrace,
            TokType::Colon => TokModel::Colon,
            TokType::Period => TokModel::Period,
            TokType::LessEq => TokModel::LessEq,
            TokType::GreaterEq => TokModel::GreaterEq,
            TokType::Greater => TokModel::Greater,
            TokType::Less => TokModel::Less,
            TokType::Newline => TokModel::Newline,
            TokType::Undefined(s) => TokModel::Undefined(s@),
            TokType::Number(s) => TokModel::Number(s@),
            TokType::SingleLineString(s) => TokModel::SingleLineString(s@),
            TokType::SingleLineComment(s) => TokModel::SingleLineComment(s@),
            TokType::Ident(s) => TokModel::Ident(s@),
        }
    }
}

impl PartialEq for TokType {
    #[verifier::rlimit(60)]
    fn eq(&self, other: &TokType) -> (r: bool) {
        match (self, other) {
            (TokType::Assign, TokType::Assign) => true,
            (TokType::Equate, TokType::Equate) => true,
            (TokType::Plus, TokType::Plus) => true,
            (TokType::Minus, TokType::Minus) => true,
            (TokType::Multiply, TokType::Multiply) => true,
            (TokType::Divide, TokType::Divide) => true,
            (TokType::Modulo, TokType::Modulo) => true,
            (TokType::NotEqual, TokType::NotEqual) => true,
            (TokType::True, TokType::True) => true,
            (TokType::False, TokType::False) => true,
            (TokType::If, TokType::If) => true,
            (TokType::Function, TokType::Function) => true,
            (TokType::End, TokType::End) => true,
            (TokType::Local, TokType::Local) => true,
            (TokType::Nil, TokType::Nil) => true,
            (TokType::While, TokType::While) => true,
            (TokType::Then, TokType::Then) => true,
            (TokType::And, TokType::And) => true,
            (TokType::Or, TokType::Or) => true,
            (TokType::Not, TokType::Not) => true,
            (TokType::For, TokType::For) => true,
            (TokType::Do, TokType::Do) => true,
            (TokType::LParen, TokType::LParen) => true,
            (TokType::RParen, TokType::RParen) => true,
            (TokType::LBrace, TokType::LBrace) => true,
            (TokType::RBrace, TokType::RBrace) => true,
            (TokType::Colon, TokType::Colon) => true,
            (TokType::Period, TokType::Period) => true,
            (TokType::LessEq, TokType::LessEq) => true,
            (TokType::GreaterEq, TokType::GreaterEq) => true,
            (TokType::Greater, TokType::Greater) => true,
            (TokType::Less, TokType::Less) => true,
            (TokType::Newline, TokType::Newline) => true,
            (TokType::Undefined(a), TokType::Undefined(b)) => *a == *b,
            (TokType::Number(a), TokType::Number(b)) => *a == *b,
            (TokType::SingleLineString(a), TokType::SingleLineString(b)) => *a == *b,
            (TokType::SingleLineComment(a), TokType::SingleLineComment(b)) => *a == *b,
            (TokType::Ident(a), TokType::Ident(b)) => *a == *b,
            _ => false,
        }
    }
}

impl vstd::std_specs::cmp::PartialEqSpecImpl for TokType {
    open spec fn obeys_eq_spec() -> bool {
        true
    }

    open spec fn eq_spec(&self, other: &TokType) -> bool {
        self@ == other@
    }
}

/// Mathematical view of a [`Token`].
pub ghost struct TokenModel {
    pub kind: TokModel,
    pub span: SpanModel,
}

/// One classified unit of source text together with its location.
#[derive(Debug)]
pub struct Token {
    pub kind: TokType,
    pub span: Span,
}

impl View for Token {
    type V = TokenModel;

    open spec fn view(&self) -> TokenModel {
        TokenModel { kind: self.kind@, span: self.span@ }
    }
}

impl Token {
    /// Packs a kind and a span into a token.
    pub fn new(kind: TokType, span: Span) -> (r: Token)
        ensures
            r@ == (TokenModel { kind: kind@, span: span@ }),
    {
        Token { kind, span }
    }
}

impl PartialEq for Token {
    fn eq(&self, other: &Token) -> (r: bool) {
        self.kind == other.kind && self.span == other.span
    }
}

impl vstd::std_specs::cmp::PartialEqSpecImpl for Token {
    open spec fn obeys_eq_spec() -> bool {
        true
    }

    open spec fn eq_spec(&self, other: &Token) -> bool {
        self@ == other@
    }
}

impl PartialEq for Span {
    fn eq(&self, other: &Span) -> (r: bool) {
        self.start == other.start && self.end == other.end && self.line == other.line
    }
}

impl vstd::std_specs::cmp::PartialEqSpecImpl for Span {
    open spec fn obeys_eq_spec() -> bool {
        true
    }

    open spec fn eq_spec(&self, other: &Span) -> bool {
        self@ == other@
    }
}

} // verus!
