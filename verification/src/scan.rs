//! The mathematical model of the scanner.
//!
//! Every executable scanning function in this crate is specified against
//! the functions here: [`scan_token`] says which token is carved out at a
//! given position, and [`spec_next`] additionally skips the transparent
//! whitespace in front of it.  The model mirrors the dispatch table of the
//! scanner one branch at a time, so the contracts of the executable code
//! can be read off directly.

use vstd::prelude::*;

use crate::token::SpanModel;
use crate::token::TokModel;
use crate::token::TokenModel;

verus! {

/// Whitespace that is fully transparent to the scanner: space and tab.
/// A newline is not transparent; it produces a token of its own.
pub open spec fn is_space(c: char) -> bool {
    c == ' ' || c == '\t'
}

/// An ASCII decimal digit.
pub open spec fn is_digit(c: char) -> bool {
    '0' <= c && c <= '9'
}

/// A character that may open an identifier: an ASCII letter or underscore.
pub open spec fn is_ident_start(c: char) -> bool {
    ('a' <= c && c <= 'z') || ('A' <= c && c <= 'Z') || c == '_'
}

/// A character that may continue an identifier.
pub open spec fn is_ident_char(c: char) -> bool {
    is_ident_start(c) || is_digit(c)
}

/// Mathematical view of the scanner state: the decoded input buffer, the
/// absolute cursor, the line-relative column cursor, and the 1-based line
/// counter.
pub ghost struct LexerModel {
    pub input: Seq<char>,
    pub cursor: int,
    pub col: int,
    pub line: int,
}

impl LexerModel {
    /// The invariant every reachable scanner state satisfies: the column
    /// never runs ahead of the absolute cursor, the cursor stays inside
    /// the buffer, and the line counter starts at 1 and grows by at most
    /// one per consumed character.
    pub open spec fn wf(self) -> bool {
        &&& 0 <= self.col
        &&& self.col <= self.cursor
        &&& self.cursor <= self.input.len()
        &&& 1 <= self.line
        &&& self.line <= self.cursor + 1
    }
}

/// First index at or after `i` that does not hold transparent whitespace.
pub open spec fn ws_end(s: Seq<char>, i: int) -> int
    recommends
        0 <= i <= s.len(),
    decreases s.len() - i, when 0 <= i <= s.len()
{
    if i < s.len() && is_space(s[i]) {
        ws_end(s, i + 1)
    } else {
        i
    }
}

/// First index at or after `i` where an identifier run stops.
pub open spec fn ident_end(s: Seq<char>, i: int) -> int
    recommends
        0 <= i <= s.len(),
    decreases s.len() - i, when 0 <= i <= s.len()
{
    if i < s.len() && is_ident_char(s[i]) {
        ident_end(s, i + 1)
    } else {
        i
    }
}

/// First index at or after `i` where a number literal stops: digits are
/// accumulated, and a dot is accumulated only when the character right
/// after it is a digit, so a trailing dot is left for the next token.
pub open spec fn number_end(s: Seq<char>, i: int) -> int
    recommends
        0 <= i <= s.len(),
    decreases s.len() - i, when 0 <= i <= s.len()
{
    if i < s.len() && is_digit(s[i]) {
        number_end(s, i + 1)
    } else if i + 1 < s.len() && s[i] == '.' && is_digit(s[i + 1]) {
        number_end(s, i + 1)
    } else {
        i
    }
}

/// First index at or after `i` where a line comment's content stops: the
/// next newline, or the end of the buffer.
pub open spec fn comment_end(s: Seq<char>, i: int) -> int
    recommends
        0 <= i <= s.len(),
    decreases s.len() - i, when 0 <= i <= s.len()
{
    if i < s.len() && s[i] != '\n' {
        comment_end(s, i + 1)
    } else {
        i
    }
}

/// Scans a string literal's body from `i`, the index right after the
/// opening quote.  Returns the decoded content and the index right after
/// the last consumed character.  A backslash immediately followed by a
/// quote decodes to a literal quote; an unescaped quote ends the string
/// and is consumed; the end of the buffer ends the string as well.
pub open spec fn str_scan(s: Seq<char>, i: int) -> (Seq<char>, int)
    recommends
        0 <= i <= s.len(),
    decreases s.len() - i, when 0 <= i <= s.len()
{
    if i >= s.len() {
        (Seq::<char>::empty(), i)
    } else if s[i] == '\\' && i + 1 < s.len() && s[i + 1] == '"' {
        let (rest, e) = str_scan(s, i + 2);
        (seq!['"'] + rest, e)
    } else if s[i] == '"' {
        (Seq::<char>::empty(), i + 1)
    } else {
        let (rest, e) = str_scan(s, i + 1);
        (seq![s[i]] + rest, e)
    }
}

/// How many decimal points a numeric lexeme holds.
pub open spec fn dot_count(s: Seq<char>) -> int
    decreases s.len(),
{
    if s.len() == 0 {
        0
    } else {
        dot_count(s.drop_last()) + (if s.last() == '.' {
            1int
        } else {
            0int
        })
    }
}

/// A numeric lexeme accumulated by [`number_end`] denotes a 64-bit
/// floating-point value exactly when it holds at most one decimal point;
/// with two or more it is emitted as `Undefined` instead.
pub open spec fn is_numeric_lexeme(s: Seq<char>) -> bool {
    dot_count(s) <= 1
}

/// The fixed keyword table: maps an identifier run to its keyword token,
/// or to `Ident` when it is no keyword.
pub open spec fn word_kind(w: Seq<char>) -> TokModel {
    if w == "true"@ {
        TokModel::True
    } else if w == "false"@ {
        TokModel::False
    } else if w == "if"@ {
        TokModel::If
    } else if w == "function"@ {
        TokModel::Function
    } else if w == "end"@ {
        TokModel::End
    } else if w == "local"@ {
        TokModel::Local
    } else if w == "nil"@ {
        TokModel::Nil
    } else if w == "while"@ {
        TokModel::While
    } else if w == "then"@ {
        TokModel::Then
    } else if w == "and"@ {
        TokModel::And
    } else if w == "or"@ {
        TokModel::Or
    } else if w == "not"@ {
        TokModel::Not
    } else if w == "for"@ {
        TokModel::For
    } else if w == "do"@ {
        TokModel::Do
    } else {
        TokModel::Ident(w)
    }
}

/// Whether an identifier run is one of the fixed keywords.
pub open spec fn is_keyword(w: Seq<char>) -> bool {
    !(word_kind(w) is Ident)
}

/// Whether the dispatch table classifies the current character as
/// unrecognizable: it matches no rule, alone or as the start of a pair,
/// and is carved out as a one-character `Undefined` token.
pub open spec fn is_fallback(m: LexerModel) -> bool {
    let s = m.input;
    let i = m.cursor;
    let c = s[i];
    &&& 0 <= i < s.len()
    &&& !is_space(c)
    &&& c != '\n'
    &&& c != '"'
    &&& c != '=' && c != '>' && c != '<'
    &&& !(c == '~' && i + 1 < s.len() && s[i + 1] == '=')
    &&& c != '(' && c != ')' && c != '{' && c != '}' && c != ':' && c != '.'
    &&& c != '+' && c != '-' && c != '*' && c != '/' && c != '%'
    &&& !is_ident_start(c)
    &&& !is_digit(c)
}

/// A token of `width` characters carved out at the current position,
/// without touching the line counter.
pub open spec fn fixed_token(m: LexerModel, kind: TokModel, width: int) -> (TokenModel, LexerModel) {
    (
        TokenModel {
            kind,
            span: SpanModel { start: m.col, end: m.col + width, line: m.line },
        },
        LexerModel { input: m.input, cursor: m.cursor + width, col: m.col + width, line: m.line },
    )
}

/// The dispatch table of the scanner: which token is carved out at the
/// current position, and the state after it.  Meaningful when the current
/// character exists and is not transparent whitespace.
pub open spec fn scan_token(m: LexerModel) -> (TokenModel, LexerModel)
    recommends
        m.wf(),
        m.cursor < m.input.len(),
        !is_space(m.input[m.cursor]),
{
    let s = m.input;
    let i = m.cursor;
    let c = s[i];
    if c == '\n' {
        (
            TokenModel {
                kind: TokModel::Newline,
                span: SpanModel { start: m.col, end: m.col + 1, line: m.line },
            },
            LexerModel { input: s, cursor: i + 1, col: 0, line: m.line + 1 },
        )
    } else if c == '-' && i + 1 < s.len() && s[i + 1] == '-' {
        let e = comment_end(s, i + 2);
        (
            TokenModel {
                kind: TokModel::SingleLineComment(s.subrange(i + 2, e)),
                span: SpanModel { start: m.col, end: m.col + (e - i), line: m.line },
            },
            LexerModel { input: s, cursor: e, col: m.col + (e - i), line: m.line },
        )
    } else if c == '"' {
        let content = str_scan(s, i + 1).0;
        let e = str_scan(s, i + 1).1;
        (
            TokenModel {
                kind: TokModel::SingleLineString(content),
                span: SpanModel { start: m.col, end: m.col + (e - i), line: m.line },
            },
            LexerModel { input: s, cursor: e, col: m.col + (e - i), line: m.line },
        )
    } else if c == '=' && i + 1 < s.len() && s[i + 1] == '=' {
        fixed_token(m, TokModel::Equate, 2)
    } else if c == '=' {
        fixed_token(m, TokModel::Assign, 1)
    } else if c == '~' && i + 1 < s.len() && s[i + 1] == '=' {
        fixed_token(m, TokModel::NotEqual, 2)
    } else if c == '>' && i + 1 < s.len() && s[i + 1] == '=' {
        fixed_token(m, TokModel::GreaterEq, 2)
    } else if c == '<' && i + 1 < s.len() && s[i + 1] == '=' {
        fixed_token(m, TokModel::LessEq, 2)
    } else if c == '>' {
        fixed_token(m, TokModel::Greater, 1)
    } else if c == '<' {
        fixed_token(m, TokModel::Less, 1)
    } else if c == '(' {
        fixed_token(m, TokModel::LParen, 1)
    } else if c == ')' {
        fixed_token(m, TokModel::RParen, 1)
    } else if c == '{' {
        fixed_token(m, TokModel::LBrace, 1)
    } else if c == '}' {
        fixed_token(m, TokModel::RBrace, 1)
    } else if c == ':' {
        fixed_token(m, TokModel::Colon, 1)
    } else if c == '.' {
        fixed_token(m, TokModel::Period, 1)
    } else if c == '+' {
        fixed_token(m, TokModel::Plus, 1)
    } else if c == '-' {
        fixed_token(m, TokModel::Minus, 1)
    } else if c == '*' {
        fixed_token(m, TokModel::Multiply, 1)
    } else if c == '/' {
        fixed_token(m, TokModel::Divide, 1)
    } else if c == '%' {
        fixed_token(m, TokModel::Modulo, 1)
    } else if is_ident_start(c) {
        let e = ident_end(s, i);
        (
            TokenModel {
                kind: word_kind(s.subrange(i, e)),
                span: SpanModel { start: m.col, end: m.col + (e - i), line: m.line },
            },
            LexerModel { input: s, cursor: e, col: m.col + (e - i), line: m.line },
        )
    } else if is_digit(c) {
        let e = number_end(s, i);
        let lexeme = s.subrange(i, e);
        (
            TokenModel {
                kind: if is_numeric_lexeme(lexeme) {
                    TokModel::Number(lexeme)
                } else {
                    TokModel::Undefined(lexeme)
                },
                span: SpanModel { start: m.col, end: m.col + (e - i), line: m.line },
            },
            LexerModel { input: s, cursor: e, col: m.col + (e - i), line: m.line },
        )
    } else {
        fixed_token(m, TokModel::Undefined(seq![c]), 1)
    }
}

/// What one pull on the scanner yields: the next token, or `None` at the
/// end of the input, together with the scanner state afterwards.
/// Transparent whitespace in front of the token is consumed and produces
/// nothing.
pub open spec fn spec_next(m: LexerModel) -> (Option<TokenModel>, LexerModel)
    recommends
        m.wf(),
    decreases m.input.len() - m.cursor, when m.wf()
{
    if m.cursor >= m.input.len() {
        (None, m)
    } else if is_space(m.input[m.cursor]) {
        spec_next(LexerModel { input: m.input, cursor: m.cursor + 1, col: m.col + 1, line: m.line })
    } else {
        let (t, m2) = scan_token(m);
        (Some(t), m2)
    }
}

pub proof fn lemma_ident_end_bounds(s: Seq<char>, i: int)
    requires
        0 <= i <= s.len(),
    ensures
        i <= ident_end(s, i) <= s.len(),
        forall|k: int| i <= k < ident_end(s, i) ==> is_ident_char(s[k]),
        ident_end(s, i) < s.len() ==> !is_ident_char(s[ident_end(s, i)]),
    decreases s.len() - i,
{
    if i < s.len() && is_ident_char(s[i]) {
        lemma_ident_end_bounds(s, i + 1);
    }
}

pub proof fn lemma_number_end_bounds(s: Seq<char>, i: int)
    requires
        0 <= i <= s.len(),
    ensures
        i <= number_end(s, i) <= s.len(),
        forall|k: int| i <= k < number_end(s, i) ==> is_digit(s[k]) || s[k] == '.',
    decreases s.len() - i,
{
    if i < s.len() && is_digit(s[i]) {
        lemma_number_end_bounds(s, i + 1);
    } else if i + 1 < s.len() && s[i] == '.' && is_digit(s[i + 1]) {
        lemma_number_end_bounds(s, i + 1);
    }
}

pub proof fn lemma_comment_end_bounds(s: Seq<char>, i: int)
    requires
        0 <= i <= s.len(),
    ensures
        i <= comment_end(s, i) <= s.len(),
        forall|k: int| i <= k < comment_end(s, i) ==> s[k] != '\n',
        comment_end(s, i) < s.len() ==> s[comment_end(s, i)] == '\n',
    decreases s.len() - i,
{
    if i < s.len() && s[i] != '\n' {
        lemma_comment_end_bounds(s, i + 1);
    }
}

pub proof fn lemma_str_scan_bounds(s: Seq<char>, i: int)
    requires
        0 <= i <= s.len(),
    ensures
        i <= str_scan(s, i).1 <= s.len(),
    decreases s.len() - i,
{
    if i >= s.len() {
    } else if s[i] == '\\' && i + 1 < s.len() && s[i + 1] == '"' {
        lemma_str_scan_bounds(s, i + 2);
    } else if s[i] == '"' {
    } else {
        lemma_str_scan_bounds(s, i + 1);
    }
}

/// Every branch of the dispatch table advances the cursor by at least one
/// character and preserves the scanner invariant.
pub proof fn lemma_scan_token(m: LexerModel)
    requires
        m.wf(),
        m.cursor < m.input.len(),
        !is_space(m.input[m.cursor]),
    ensures
        ({
            let (t, m2) = scan_token(m);
            &&& m2.wf()
            &&& m2.input == m.input
            &&& m.cursor < m2.cursor <= m.input.len()
            &&& t.span.line == m.line
            &&& t.span.start == m.col
        }),
{
    let s = m.input;
    let i = m.cursor;
    let c = s[i];
    if c == '\n' {
    } else if c == '-' && i + 1 < s.len() && s[i + 1] == '-' {
        lemma_comment_end_bounds(s, i + 2);
    } else if c == '"' {
        lemma_str_scan_bounds(s, i + 1);
    } else if is_ident_start(c) {
        lemma_ident_end_bounds(s, i + 1);
        assert(ident_end(s, i) == ident_end(s, i + 1));
    } else if is_digit(c) {
        lemma_number_end_bounds(s, i + 1);
        assert(number_end(s, i) == number_end(s, i + 1));
    }
}

} // verus!
