//! The scanner itself: a position tracker over a pre-decoded character
//! buffer, and one recognizer per token shape.
//!
//! Every public operation is specified against the model in [`crate::scan`]:
//! [`Lexer::next`] implements [`spec_next`] exactly, and each recognizer
//! implements the corresponding branch of [`scan_token`].

use vstd::prelude::*;

use crate::scan::LexerModel;
use crate::scan::is_digit;
use crate::scan::is_ident_start;
use crate::scan::is_space;
use crate::scan::dot_count;
use crate::scan::word_kind;
use crate::scan::ident_end;
use crate::scan::number_end;
use crate::scan::comment_end;
use crate::scan::str_scan;
use crate::scan::scan_token;
use crate::scan::spec_next;
use crate::scan::fixed_token;
use crate::token::Span;
use crate::token::TokModel;
use crate::token::TokType;
use crate::token::Token;
use crate::token::TokenModel;
use vstd::string::StrSliceExecFns;

verus! {

/// Relies on `String::push`: appends exactly the given character to the
/// end of the string.
#[verifier::external_body]
fn push_char(s: &mut String, c: char)
    ensures
        final(s)@ == old(s)@.push(c),
{
    s.push(c)
}

/// Whether a looked-ahead character is present and equal to `c`.
fn is_char(o: Option<char>, c: char) -> (r: bool)
    ensures
        r == (o == Some(c)),
{
    if let Some(x) = o {
        x == c
    } else {
        false
    }
}

/// Builds the string holding exactly the given characters.
fn string_from_chars(v: &Vec<char>) -> (r: String)
    ensures
        r@ == v@,
{
    let mut r = String::new();
    let mut i: usize = 0;
    while i < v.len()
        invariant
            i <= v@.len(),
            r@ == v@.subrange(0, i as int),
        decreases v@.len() - i,
    {
        push_char(&mut r, v[i]);
        assert(v@.subrange(0, i as int).push(v@[i as int]) =~= v@.subrange(0, i + 1 as int));
        i = i + 1;
    }
    assert(v@.subrange(0, v@.len() as int) =~= v@);
    r
}

/// The keyword table consulted once an identifier's full extent is known.
fn classify_word(w: String) -> (t: TokType)
    ensures
        t@ == word_kind(w@),
{
    if w == "true".to_owned() {
        TokType::True
    } else if w == "false".to_owned() {
        TokType::False
    } else if w == "if".to_owned() {
        TokType::If
    } else if w == "function".to_owned() {
        TokType::Function
    } else if w == "end".to_owned() {
        TokType::End
    } else if w == "local".to_owned() {
        TokType::Local
    } else if w == "nil".to_owned() {
        TokType::Nil
    } else if w == "while".to_owned() {
        TokType::While
    } else if w == "then".to_owned() {
        TokType::Then
    } else if w == "and".to_owned() {
        TokType::And
    } else if w == "or".to_owned() {
        TokType::Or
    } else if w == "not".to_owned() {
        TokType::Not
    } else if w == "for".to_owned() {
        TokType::For
    } else if w == "do".to_owned() {
        TokType::Do
    } else {
        TokType::Ident(w)
    }
}

/// The scanner state: the decoded input buffer and the three cursors of
/// the position tracker.  `cursor` is the absolute character offset,
/// `pseudo_cursor` the line-relative column (reset to 0 on every newline),
/// and `line` the 1-based line counter.
pub struct Lexer {
    input: Vec<char>,
    cursor: usize,
    pseudo_cursor: usize,
    line: usize,
}

impl View for Lexer {
    type V = LexerModel;

    closed spec fn view(&self) -> LexerModel {
        LexerModel {
            input: self.input@,
            cursor: self.cursor as int,
            col: self.pseudo_cursor as int,
            line: self.line as int,
        }
    }
}

/// The view of the token a scan step hands out, if any.
pub open spec fn emitted(r: Option<Token>) -> Option<TokenModel> {
    match r {
        Some(t) => Some(t@),
        None => None,
    }
}

impl Lexer {
    /// The scanner invariant, plus the machine-level bound that lets the
    /// line counter grow without overflowing.
    pub open spec fn wf(&self) -> bool {
        &&& self@.wf()
        &&& self@.input.len() < usize::MAX
    }

    /// Builds a scanner over the given buffer, with the cursors at the
    /// start of line 1.  The buffer is decoded into characters once, so
    /// every later lookahead is O(1).
    pub fn new(input: &str) -> (l: Lexer)
        requires
            input@.len() < usize::MAX,
        ensures
            l.wf(),
            l@ == (LexerModel { input: input@, cursor: 0, col: 0, line: 1 }),
    {
        let n = input.unicode_len();
        let mut buf: Vec<char> = Vec::new();
        let mut i: usize = 0;
        while i < n
            invariant
                n == input@.len(),
                i <= n,
                buf@ == input@.subrange(0, i as int),
            decreases n - i,
        {
            buf.push(input.get_char(i));
            assert(input@.subrange(0, i as int).push(input@[i as int]) =~= input@.subrange(
                0,
                i + 1 as int,
            ));
            i = i + 1;
        }
        assert(input@.subrange(0, input@.len() as int) =~= input@);
        Lexer { input: buf, cursor: 0, pseudo_cursor: 0, line: 1 }
    }

    /// The character at the given absolute offset, or `None` past the end.
    pub fn get_char(&self, num: usize) -> (r: Option<char>)
        ensures
            r == (if num < self@.input.len() {
                Some(self@.input[num as int])
            } else {
                None::<char>
            }),
    {
        if num < self.input.len() {
            Some(self.input[num])
        } else {
            None
        }
    }

    /// The character at the cursor, or `None` at the end of the input.
    pub fn current_char(&self) -> (r: Option<char>)
        ensures
            r == (if self@.cursor < self@.input.len() {
                Some(self@.input[self@.cursor])
            } else {
                None::<char>
            }),
    {
        self.get_char(self.cursor)
    }

    /// The character one position past the cursor, without moving it, or
    /// `None` when no such character exists.
    pub fn peek_char(&self) -> (r: Option<char>)
        ensures
            r == (if self@.cursor + 1 < self@.input.len() {
                Some(self@.input[self@.cursor + 1])
            } else {
                None::<char>
            }),
    {
        if self.cursor < self.input.len() {
            self.get_char(self.cursor + 1)
        } else {
            None
        }
    }

    /// Moves the absolute and column cursors forward by `chars`
    /// characters, never past the end of the buffer.
    pub fn translate(&mut self, chars: usize)
        requires
            old(self).wf(),
            old(self)@.cursor + chars <= old(self)@.input.len(),
        ensures
            final(self).wf(),
            final(self)@ == (LexerModel {
                cursor: old(self)@.cursor + chars,
                col: old(self)@.col + chars,
                ..old(self)@
            }),
    {
        self.cursor = self.cursor + chars;
        self.pseudo_cursor = self.pseudo_cursor + chars;
    }

    /// Recognizes a number literal: consecutive digits, with a decimal
    /// point accumulated only when a digit follows it.  The lexeme is
    /// emitted as `Number` when it denotes a 64-bit floating-point value
    /// (at most one decimal point) and defensively as `Undefined`
    /// otherwise.
    pub fn get_number(&mut self) -> (r: Option<Token>)
        requires
            old(self).wf(),
            old(self)@.cursor < old(self)@.input.len(),
            is_digit(old(self)@.input[old(self)@.cursor]),
        ensures
            final(self).wf(),
            ({
                let (t, m2) = scan_token(old(self)@);
                &&& r matches Some(tok) && tok@ == t
                &&& final(self)@ == m2
            }),
    {
        let ghost m0 = self@;
        let ghost s = self@.input;
        let start = self.pseudo_cursor;
        let mut v: Vec<char> = Vec::new();
        let mut dots: usize = 0;
        loop
            invariant
                self.wf(),
                self@.input == s,
                self@.line == m0.line,
                0 <= m0.cursor <= self@.cursor <= s.len(),
                self@.col - m0.col == self@.cursor - m0.cursor,
                v@ == s.subrange(m0.cursor, self@.cursor),
                dots as int == dot_count(v@),
                dots as int <= v@.len(),
                number_end(s, m0.cursor) == number_end(s, self@.cursor),
            ensures
                self.wf(),
                self@.input == s,
                self@.line == m0.line,
                self@.col - m0.col == self@.cursor - m0.cursor,
                v@ == s.subrange(m0.cursor, self@.cursor),
                dots as int == dot_count(v@),
                self@.cursor == number_end(s, m0.cursor),
            decreases s.len() - self@.cursor,
        {
            let cur = self.current_char();
            if let Some(n) = cur {
                let take = if '0' <= n && n <= '9' {
                    true
                } else if n == '.' {
                    if let Some(q) = self.peek_char() {
                        '0' <= q && q <= '9'
                    } else {
                        false
                    }
                } else {
                    false
                };
                if take {
                    let ghost c = self@.cursor;
                    v.push(n);
                    if n == '.' {
                        dots = dots + 1;
                    }
                    self.translate(1);
                    proof {
                        assert(s.subrange(m0.cursor, c).push(s[c]) =~= s.subrange(
                            m0.cursor,
                            c + 1,
                        ));
                        assert(v@.drop_last() =~= s.subrange(m0.cursor, c));
                        assert(number_end(s, c) == number_end(s, c + 1));
                    }
                } else {
                    proof {
                        assert(number_end(s, self@.cursor) == self@.cursor);
                    }
                    break;
                }
            } else {
                proof {
                    assert(number_end(s, self@.cursor) == self@.cursor);
                }
                break;
            }
        }
        let lexeme = string_from_chars(&v);
        let kind = if dots <= 1 {
            TokType::Number(lexeme)
        } else {
            TokType::Undefined(lexeme)
        };
        Some(Token::new(kind, Span::new(start, self.pseudo_cursor, self.line)))
    }

    /// Recognizes an identifier or keyword: consecutive letters, digits
    /// and underscores, classified against the keyword table once the full
    /// extent is known.
    pub fn identifier(&mut self) -> (r: Option<Token>)
        requires
            old(self).wf(),
            old(self)@.cursor < old(self)@.input.len(),
            is_ident_start(old(self)@.input[old(self)@.cursor]),
        ensures
            final(self).wf(),
            ({
                let (t, m2) = scan_token(old(self)@);
                &&& r matches Some(tok) && tok@ == t
                &&& final(self)@ == m2
            }),
    {
        let ghost m0 = self@;
        let ghost s = self@.input;
        let start = self.pseudo_cursor;
        let mut v: Vec<char> = Vec::new();
        loop
            invariant
                self.wf(),
                self@.input == s,
                self@.line == m0.line,
                0 <= m0.cursor <= self@.cursor <= s.len(),
                self@.col - m0.col == self@.cursor - m0.cursor,
                v@ == s.subrange(m0.cursor, self@.cursor),
                ident_end(s, m0.cursor) == ident_end(s, self@.cursor),
            ensures
                self.wf(),
                self@.input == s,
                self@.line == m0.line,
                self@.col - m0.col == self@.cursor - m0.cursor,
                v@ == s.subrange(m0.cursor, self@.cursor),
                self@.cursor == ident_end(s, m0.cursor),
            decreases s.len() - self@.cursor,
        {
            let cur = self.current_char();
            if let Some(ch) = cur {
                let take = ('A' <= ch && ch <= 'Z') || ('a' <= ch && ch <= 'z') || ('0' <= ch
                    && ch <= '9') || ch == '_';
                if take {
                    let ghost c = self@.cursor;
                    v.push(ch);
                    self.translate(1);
                    proof {
                        assert(s.subrange(m0.cursor, c).push(s[c]) =~= s.subrange(
                            m0.cursor,
                            c + 1,
                        ));
                        assert(ident_end(s, c) == ident_end(s, c + 1));
                    }
                } else {
                    proof {
                        assert(ident_end(s, self@.cursor) == self@.cursor);
                    }
                    break;
                }
            } else {
                proof {
                    assert(ident_end(s, self@.cursor) == self@.cursor);
                }
                break;
            }
        }
        let kind = classify_word(string_from_chars(&v));
        Some(Token::new(kind, Span::new(start, self.pseudo_cursor, self.line)))
    }

    /// Recognizes a single-line string literal, starting at the opening
    /// quote.  A backslash immediately followed by a quote decodes to a
    /// literal quote in the content; an unescaped quote closes the string
    /// and is consumed; an unterminated string simply ends with the
    /// buffer.
    pub fn single_line_string(&mut self) -> (r: Option<Token>)
        requires
            old(self).wf(),
            old(self)@.cursor < old(self)@.input.len(),
            old(self)@.input[old(self)@.cursor] == '"',
        ensures
            final(self).wf(),
            ({
                let (t, m2) = scan_token(old(self)@);
                &&& r matches Some(tok) && tok@ == t
                &&& final(self)@ == m2
            }),
    {
        let ghost m0 = self@;
        let ghost s = self@.input;
        let start = self.pseudo_cursor;
        self.translate(1);
        let mut v: Vec<char> = Vec::new();
        loop
            invariant_except_break
                str_scan(s, m0.cursor + 1).0 == v@ + str_scan(s, self@.cursor).0,
                str_scan(s, m0.cursor + 1).1 == str_scan(s, self@.cursor).1,
            invariant
                self.wf(),
                self@.input == s,
                self@.line == m0.line,
                0 <= m0.cursor,
                m0.cursor + 1 <= self@.cursor <= s.len(),
                self@.col - m0.col == self@.cursor - m0.cursor,
            ensures
                self.wf(),
                self@.input == s,
                self@.line == m0.line,
                self@.col - m0.col == self@.cursor - m0.cursor,
                v@ == str_scan(s, m0.cursor + 1).0,
                self@.cursor == str_scan(s, m0.cursor + 1).1,
            decreases s.len() - self@.cursor,
        {
            let cur = self.current_char();
            if let Some(ch) = cur {
                let escaped = if ch == '\\' {
                    if let Some(q) = self.peek_char() {
                        q == '"'
                    } else {
                        false
                    }
                } else {
                    false
                };
                let ghost c = self@.cursor;
                if escaped {
                    v.push('"');
                    self.translate(2);
                    proof {
                        assert(str_scan(s, c).0 == seq!['"'] + str_scan(s, c + 2).0);
                        assert((v@.drop_last() + (seq!['"'] + str_scan(s, c + 2).0)) =~= (v@
                            + str_scan(s, c + 2).0));
                    }
                } else if ch == '"' {
                    self.translate(1);
                    proof {
                        assert(str_scan(s, c).0 =~= Seq::<char>::empty());
                        assert(v@ + Seq::<char>::empty() =~= v@);
                    }
                    break;
                } else {
                    v.push(ch);
                    self.translate(1);
                    proof {
                        assert(str_scan(s, c).0 == seq![s[c]] + str_scan(s, c + 1).0);
                        assert((v@.drop_last() + (seq![s[c]] + str_scan(s, c + 1).0)) =~= (v@
                            + str_scan(s, c + 1).0));
                    }
                }
            } else {
                proof {
                    assert(str_scan(s, self@.cursor).0 =~= Seq::<char>::empty());
                    assert(v@ + Seq::<char>::empty() =~= v@);
                }
                break;
            }
        }
        Some(
            Token::new(
                TokType::SingleLineString(string_from_chars(&v)),
                Span::new(start, self.pseudo_cursor, self.line),
            ),
        )
    }

    /// Recognizes a line comment: consumes the two dashes, then
    /// accumulates everything up to (but not including) the next newline
    /// or the end of the buffer as the comment's content.
    pub fn single_line_comment(&mut self) -> (r: Option<Token>)
        requires
            old(self).wf(),
            old(self)@.cursor + 1 < old(self)@.input.len(),
            old(self)@.input[old(self)@.cursor] == '-',
            old(self)@.input[old(self)@.cursor + 1] == '-',
        ensures
            final(self).wf(),
            ({
                let (t, m2) = scan_token(old(self)@);
                &&& r matches Some(tok) && tok@ == t
                &&& final(self)@ == m2
            }),
    {
        let ghost m0 = self@;
        let ghost s = self@.input;
        let start = self.pseudo_cursor;
        self.translate(2);
        let mut v: Vec<char> = Vec::new();
        loop
            invariant
                self.wf(),
                self@.input == s,
                self@.line == m0.line,
                0 <= m0.cursor,
                m0.cursor + 2 <= self@.cursor <= s.len(),
                self@.col - m0.col == self@.cursor - m0.cursor,
                v@ == s.subrange(m0.cursor + 2, self@.cursor),
                comment_end(s, m0.cursor + 2) == comment_end(s, self@.cursor),
            ensures
                self.wf(),
                self@.input == s,
                self@.line == m0.line,
                self@.col - m0.col == self@.cursor - m0.cursor,
                v@ == s.subrange(m0.cursor + 2, self@.cursor),
                self@.cursor == comment_end(s, m0.cursor + 2),
            decreases s.len() - self@.cursor,
        {
            let cur = self.current_char();
            if let Some(ch) = cur {
                if ch == '\n' {
                    proof {
                        assert(comment_end(s, self@.cursor) == self@.cursor);
                    }
                    break;
                } else {
                    let ghost c = self@.cursor;
                    v.push(ch);
                    self.translate(1);
                    proof {
                        assert(s.subrange(m0.cursor + 2, c).push(s[c]) =~= s.subrange(
                            m0.cursor + 2,
                            c + 1,
                        ));
                        assert(comment_end(s, c) == comment_end(s, c + 1));
                    }
                }
            } else {
                proof {
                    assert(comment_end(s, self@.cursor) == self@.cursor);
                }
                break;
            }
        }
        Some(
            Token::new(
                TokType::SingleLineComment(string_from_chars(&v)),
                Span::new(start, self.pseudo_cursor, self.line),
            ),
        )
    }

    /// Consumes a newline: emits the token spanning the single character,
    /// resets the column to 0 and increments the line counter.
    pub fn newline(&mut self) -> (r: Option<Token>)
        requires
            old(self).wf(),
            old(self)@.cursor < old(self)@.input.len(),
            old(self)@.input[old(self)@.cursor] == '\n',
        ensures
            final(self).wf(),
            ({
                let (t, m2) = scan_token(old(self)@);
                &&& r matches Some(tok) && tok@ == t
                &&& final(self)@ == m2
            }),
    {
        let start = self.pseudo_cursor;
        let line = self.line;
        self.translate(1);
        self.pseudo_cursor = 0;
        self.line = line + 1;
        Some(Token::new(TokType::Newline, Span::new(start, start + 1, line)))
    }

    /// Emits `Equate` for a `==` pair.
    pub(crate) fn equate(&mut self) -> (r: Option<Token>)
        requires
            old(self).wf(),
            old(self)@.cursor + 2 <= old(self)@.input.len(),
        ensures
            final(self).wf(),
            ({
                let (t, m2) = fixed_token(old(self)@, TokModel::Equate, 2);
                &&& r matches Some(tok) && tok@ == t
                &&& final(self)@ == m2
            }),
    {
        let start = self.pseudo_cursor;
        self.translate(2);
        Some(Token::new(TokType::Equate, Span::new(start, self.pseudo_cursor, self.line)))
    }

    /// Emits `Assign` for a lone `=`.
    pub(crate) fn assign(&mut self) -> (r: Option<Token>)
        requires
            old(self).wf(),
            old(self)@.cursor + 1 <= old(self)@.input.len(),
        ensures
            final(self).wf(),
            ({
                let (t, m2) = fixed_token(old(self)@, TokModel::Assign, 1);
                &&& r matches Some(tok) && tok@ == t
                &&& final(self)@ == m2
            }),
    {
        let start = self.pseudo_cursor;
        self.translate(1);
        Some(Token::new(TokType::Assign, Span::new(start, self.pseudo_cursor, self.line)))
    }

    /// Emits the given kind for a single-character symbol or operator.
    pub(crate) fn single_char_match(&mut self, t: TokType) -> (r: Option<Token>)
        requires
            old(self).wf(),
            old(self)@.cursor + 1 <= old(self)@.input.len(),
        ensures
            final(self).wf(),
            ({
                let (tk, m2) = fixed_token(old(self)@, t@, 1);
                &&& r matches Some(tok) && tok@ == tk
                &&& final(self)@ == m2
            }),
    {
        self.translate(1);
        Some(
            Token::new(
                t,
                Span::new(self.pseudo_cursor - 1, self.pseudo_cursor, self.line),
            ),
        )
    }

    /// Emits the given kind for a symbol or operator of `chars`
    /// characters.
    pub(crate) fn multi_char_match(&mut self, chars: usize, t: TokType) -> (r: Option<Token>)
        requires
            old(self).wf(),
            old(self)@.cursor + chars <= old(self)@.input.len(),
        ensures
            final(self).wf(),
            ({
                let (tk, m2) = fixed_token(old(self)@, t@, chars as int);
                &&& r matches Some(tok) && tok@ == tk
                &&& final(self)@ == m2
            }),
    {
        let start = self.pseudo_cursor;
        self.translate(chars);
        Some(Token::new(t, Span::new(start, self.pseudo_cursor, self.line)))
    }

    /// Consumes one transparent whitespace character and recursively
    /// attempts the next token.
    pub(crate) fn whitespace(&mut self) -> (r: Option<Token>)
        requires
            old(self).wf(),
            old(self)@.cursor < old(self)@.input.len(),
            is_space(old(self)@.input[old(self)@.cursor]),
        ensures
            final(self).wf(),
            ({
                let (t, m2) = spec_next(old(self)@);
                &&& emitted(r) == t
                &&& final(self)@ == m2
            }),
        decreases old(self)@.input.len() - old(self)@.cursor, 0int,
    {
        self.translate(1);
        self.next()
    }

    /// Emits `Undefined` wrapping the single unclassifiable character at
    /// the cursor.
    pub(crate) fn undefined(&mut self) -> (r: Option<Token>)
        requires
            old(self).wf(),
            crate::scan::is_fallback(old(self)@),
        ensures
            final(self).wf(),
            ({
                let (t, m2) = scan_token(old(self)@);
                &&& r matches Some(tok) && tok@ == t
                &&& final(self)@ == m2
            }),
    {
        let start = self.pseudo_cursor;
        let cur = self.current_char();
        let c = cur.unwrap();
        self.translate(1);
        let mut v: Vec<char> = Vec::new();
        v.push(c);
        proof {
            assert(v@ =~= seq![c]);
        }
        Some(
            Token::new(
                TokType::Undefined(string_from_chars(&v)),
                Span::new(start, self.pseudo_cursor, self.line),
            ),
        )
    }

    /// Produces the next token, or `None` at the end of the input.
    ///
    /// This is the scanner dispatch: it inspects the current character
    /// (and, where needed, the next one) and routes to exactly one
    /// recognizer.  Transparent whitespace is consumed without producing a
    /// token.  The call implements [`spec_next`] exactly, so it is total:
    /// it never fails, and every token-producing call strictly advances
    /// the cursor.
    pub fn next(&mut self) -> (r: Option<Token>)
        requires
            old(self).wf(),
        ensures
            final(self).wf(),
            ({
                let (t, m2) = spec_next(old(self)@);
                &&& emitted(r) == t
                &&& final(self)@ == m2
            }),
        decreases old(self)@.input.len() - old(self)@.cursor, 1int,
    {
        let cur = self.current_char();
        if let Some(c) = cur {
            let next_char = self.peek_char();
            if c == '\n' {
                self.newline()
            } else if c == '-' && is_char(next_char, '-') {
                self.single_line_comment()
            } else if c == '"' {
                self.single_line_string()
            } else if c == ' ' || c == '\t' {
                self.whitespace()
            } else if c == '=' && is_char(next_char, '=') {
                self.equate()
            } else if c == '=' {
                self.assign()
            } else if c == '(' {
                self.single_char_match(TokType::LParen)
            } else if c == ')' {
                self.single_char_match(TokType::RParen)
            } else if c == '{' {
                self.single_char_match(TokType::LBrace)
            } else if c == '}' {
                self.single_char_match(TokType::RBrace)
            } else if c == ':' {
                self.single_char_match(TokType::Colon)
            } else if c == '.' {
                self.single_char_match(TokType::Period)
            } else if c == '>' && is_char(next_char, '=') {
                self.multi_char_match(2, TokType::GreaterEq)
            } else if c == '<' && is_char(next_char, '=') {
                self.multi_char_match(2, TokType::LessEq)
            } else if c == '>' {
                self.single_char_match(TokType::Greater)
            } else if c == '<' {
                self.single_char_match(TokType::Less)
            } else if c == '+' {
                self.single_char_match(TokType::Plus)
            } else if c == '-' {
                self.single_char_match(TokType::Minus)
            } else if c == '*' {
                self.single_char_match(TokType::Multiply)
            } else if c == '/' {
                self.single_char_match(TokType::Divide)
            } else if c == '%' {
                self.single_char_match(TokType::Modulo)
            } else if c == '~' && is_char(next_char, '=') {
                self.multi_char_match(2, TokType::NotEqual)
            } else if ('A' <= c && c <= 'Z') || ('a' <= c && c <= 'z') || c == '_' {
                self.identifier()
            } else if '0' <= c && c <= '9' {
                self.get_number()
            } else {
                self.undefined()
            }
        } else {
            None
        }
    }

    /// The current 1-based line number.
    pub fn line(&self) -> (r: usize)
        ensures
            r as int == self@.line,
    {
        self.line
    }

    /// The current line-relative column.
    pub fn column(&self) -> (r: usize)
        ensures
            r as int == self@.col,
    {
        self.pseudo_cursor
    }

    /// The current absolute offset into the buffer.
    pub fn cursor(&self) -> (r: usize)
        ensures
            r as int == self@.cursor,
    {
        self.cursor
    }
}

} // verus!
