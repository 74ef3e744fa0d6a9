//! The scanner's global laws, stated and proved once over the model in
//! [`crate::scan`].  Because [`crate::lexer::Lexer::next`] implements
//! [`spec_next`] exactly, every law here carries over to the executable
//! scanner.

use vstd::prelude::*;

use crate::scan::LexerModel;
use crate::scan::comment_end;
use crate::scan::ident_end;
use crate::scan::is_ident_char;
use crate::scan::is_ident_start;
use crate::scan::is_keyword;
use crate::scan::is_space;
use crate::scan::lemma_comment_end_bounds;
use crate::scan::lemma_ident_end_bounds;
use crate::scan::lemma_number_end_bounds;
use crate::scan::lemma_scan_token;
use crate::scan::lemma_str_scan_bounds;
use crate::scan::number_end;
use crate::scan::scan_token;
use crate::scan::spec_next;
use crate::scan::str_scan;
use crate::scan::word_kind;
use crate::scan::ws_end;
use crate::token::TokModel;

verus! {

/// Progress: one pull on the scanner never moves the cursor backward,
/// strictly advances it whenever a token is produced, and signals end of
/// input exactly when the cursor has reached the end of the buffer.  As
/// the cursor is bounded by the input length, repeated pulls terminate
/// after at most `input.len()` token-producing calls.
pub proof fn lemma_progress(m: LexerModel)
    requires
        m.wf(),
    ensures
        ({
            let (t, m2) = spec_next(m);
            &&& m2.wf()
            &&& m2.input == m.input
            &&& m.cursor <= m2.cursor <= m.input.len()
            &&& (t is Some ==> m.cursor < m2.cursor)
            &&& (t is None ==> m2.cursor == m.input.len())
        }),
    decreases m.input.len() - m.cursor,
{
    if m.cursor >= m.input.len() {
    } else if is_space(m.input[m.cursor]) {
        lemma_progress(
            LexerModel { input: m.input, cursor: m.cursor + 1, col: m.col + 1, line: m.line },
        );
    } else {
        lemma_scan_token(m);
    }
}

/// The scanner state after `k` pulls.
pub open spec fn run(m: LexerModel, k: nat) -> LexerModel
    decreases k,
{
    if k == 0 {
        m
    } else {
        spec_next(run(m, (k - 1) as nat)).1
    }
}

/// Progress, iterated: for a finite input, repeated pulls reach the end
/// of the buffer after at most as many calls as there are characters left;
/// every pull after that signals end of input.
pub proof fn lemma_progress_bound(m: LexerModel, k: nat)
    requires
        m.wf(),
        m.input.len() - m.cursor <= k,
    ensures
        run(m, k).wf(),
        spec_next(run(m, k)).0 is None,
    decreases k,
{
    if k == 0 {
    } else {
        let prev = run(m, (k - 1) as nat);
        lemma_run_wf(m, (k - 1) as nat);
        lemma_progress(prev);
        if m.input.len() - m.cursor <= k - 1 {
            lemma_progress_bound(m, (k - 1) as nat);
            lemma_progress(run(m, k));
        } else {
            lemma_run_cursor(m, k);
            lemma_progress(run(m, k));
        }
    }
}

/// After `k` pulls the state is still well formed over the same buffer.
pub proof fn lemma_run_wf(m: LexerModel, k: nat)
    requires
        m.wf(),
    ensures
        run(m, k).wf(),
        run(m, k).input == m.input,
    decreases k,
{
    if k > 0 {
        lemma_run_wf(m, (k - 1) as nat);
        lemma_progress(run(m, (k - 1) as nat));
    }
}

/// Each pull moves the cursor forward until it reaches the end of the
/// buffer: after `k` pulls it stands at least `k` characters further, or
/// at the end.
pub proof fn lemma_run_cursor(m: LexerModel, k: nat)
    requires
        m.wf(),
    ensures
        run(m, k).cursor >= m.cursor + k || run(m, k).cursor == m.input.len(),
    decreases k,
{
    if k > 0 {
        lemma_run_cursor(m, (k - 1) as nat);
        lemma_run_wf(m, (k - 1) as nat);
        lemma_progress(run(m, (k - 1) as nat));
    }
}

/// The raw source text a token stands for, where it is determined by the
/// token alone: fixed tokens spell themselves, payload-carrying tokens
/// spell their payload (a comment adds its two leading dashes).  A string
/// literal is the one kind whose raw text is not recoverable from its
/// decoded content, so it is excluded here and covered separately by
/// [`lemma_coverage`].
pub open spec fn raw_lexeme(k: TokModel) -> Option<Seq<char>> {
    match k {
        TokModel::Assign => Some(seq!['=']),
        TokModel::Equate => Some(seq!['=', '=']),
        TokModel::Plus => Some(seq!['+']),
        TokModel::Minus => Some(seq!['-']),
        TokModel::Multiply => Some(seq!['*']),
        TokModel::Divide => Some(seq!['/']),
        TokModel::Modulo => Some(seq!['%']),
        TokModel::NotEqual => Some(seq!['~', '=']),
        TokModel::True => Some(seq!['t', 'r', 'u', 'e']),
        TokModel::False => Some(seq!['f', 'a', 'l', 's', 'e']),
        TokModel::If => Some(seq!['i', 'f']),
        TokModel::Function => Some(seq!['f', 'u', 'n', 'c', 't', 'i', 'o', 'n']),
        TokModel::End => Some(seq!['e', 'n', 'd']),
        TokModel::Local => Some(seq!['l', 'o', 'c', 'a', 'l']),
        TokModel::Nil => Some(seq!['n', 'i', 'l']),
        TokModel::While => Some(seq!['w', 'h', 'i', 'l', 'e']),
        TokModel::Then => Some(seq!['t', 'h', 'e', 'n']),
        TokModel::And => Some(seq!['a', 'n', 'd']),
        TokModel::Or => Some(seq!['o', 'r']),
        TokModel::Not => Some(seq!['n', 'o', 't']),
        TokModel::For => Some(seq!['f', 'o', 'r']),
        TokModel::Do => Some(seq!['d', 'o']),
        TokModel::LParen => Some(seq!['(']),
        TokModel::RParen => Some(seq![')']),
        TokModel::LBrace => Some(seq!['{']),
        TokModel::RBrace => Some(seq!['}']),
        TokModel::Colon => Some(seq![':']),
        TokModel::Period => Some(seq!['.']),
        TokModel::LessEq => Some(seq!['<', '=']),
        TokModel::GreaterEq => Some(seq!['>', '=']),
        TokModel::Greater => Some(seq!['>']),
        TokModel::Less => Some(seq!['<']),
        TokModel::Newline => Some(seq!['\n']),
        TokModel::Undefined(s) => Some(s),
        TokModel::Number(s) => Some(s),
        TokModel::SingleLineString(_) => None,
        TokModel::SingleLineComment(s) => Some(seq!['-', '-'] + s),
        TokModel::Ident(s) => Some(s),
    }
}

/// Coverage: the characters one token-producing pull consumes are exactly
/// a run of transparent whitespace followed by the token's lexeme, the
/// token's span sits right after that whitespace on the current line and
/// is as wide as the lexeme, and the consumed characters spell the token:
/// its raw text for every kind that determines one, and the scanned
/// string body for a string literal.  Concatenating the spans and the
/// whitespace gaps of successive pulls therefore reconstructs the input.
pub proof fn lemma_coverage(m: LexerModel)
    requires
        m.wf(),
        spec_next(m).0 is Some,
    ensures
        ({
            let (t, m2) = spec_next(m);
            let tok = t.unwrap();
            let gap = ws_end(m.input, m.cursor);
            &&& m.cursor <= gap <= m2.cursor <= m.input.len()
            &&& forall|k: int| m.cursor <= k < gap ==> is_space(m.input[k])
            &&& tok.span.line == m.line
            &&& tok.span.start == m.col + (gap - m.cursor)
            &&& tok.span.end - tok.span.start == m2.cursor - gap
            &&& (raw_lexeme(tok.kind) matches Some(raw) ==> m.input.subrange(gap, m2.cursor)
                == raw)
            &&& (tok.kind matches TokModel::SingleLineString(body) ==> m.input[gap] == '"'
                && body == str_scan(m.input, gap + 1).0 && m2.cursor == str_scan(
                m.input,
                gap + 1,
            ).1)
        }),
    decreases m.input.len() - m.cursor,
{
    let s = m.input;
    let i = m.cursor;
    if i >= s.len() {
    } else if is_space(s[i]) {
        lemma_coverage(LexerModel { input: s, cursor: i + 1, col: m.col + 1, line: m.line });
        assert(ws_end(s, i) == ws_end(s, i + 1));
    } else {
        assert(ws_end(s, i) == i);
        lemma_scan_token(m);
        let (t, m2) = scan_token(m);
        let c = s[i];
        if c == '\n' {
            assert(s.subrange(i, i + 1) =~= seq!['\n']);
        } else if c == '-' && i + 1 < s.len() && s[i + 1] == '-' {
            let e = comment_end(s, i + 2);
            lemma_comment_end_bounds(s, i + 2);
            assert(s.subrange(i, e) =~= seq!['-', '-'] + s.subrange(i + 2, e));
        } else if c == '"' {
            lemma_str_scan_bounds(s, i + 1);
        } else if is_ident_start(c) {
            let e = ident_end(s, i);
            lemma_ident_end_bounds(s, i + 1);
            assert(ident_end(s, i) == ident_end(s, i + 1));
            let w = s.subrange(i, e);
            lemma_keyword_raw(w);
        } else if is_digit_at(s, i) {
            lemma_number_end_bounds(s, i + 1);
            assert(number_end(s, i) == number_end(s, i + 1));
        } else {
            assert(s.subrange(i, i + 1) =~= seq![c]);
        }
        if (t.kind matches TokModel::Assign) {
            assert(s.subrange(i, i + 1) =~= seq!['=']);
        }
        if (t.kind matches TokModel::Equate) {
            assert(s.subrange(i, i + 2) =~= seq!['=', '=']);
        }
        if (t.kind matches TokModel::NotEqual) {
            assert(s.subrange(i, i + 2) =~= seq!['~', '=']);
        }
        if (t.kind matches TokModel::GreaterEq) {
            assert(s.subrange(i, i + 2) =~= seq!['>', '=']);
        }
        if (t.kind matches TokModel::LessEq) {
            assert(s.subrange(i, i + 2) =~= seq!['<', '=']);
        }
        if m2.cursor == i + 1 {
            assert(s.subrange(i, i + 1) =~= seq![c]);
        }
    }
}

/// Helper guard mirroring the digit test of the dispatch table.
pub open spec fn is_digit_at(s: Seq<char>, i: int) -> bool {
    0 <= i < s.len() && crate::scan::is_digit(s[i])
}

/// A keyword token's raw text is the keyword itself.
proof fn lemma_keyword_raw(w: Seq<char>)
    ensures
        raw_lexeme(word_kind(w)) matches Some(raw) ==> raw == w,
{
    reveal_strlit("true");
    reveal_strlit("false");
    reveal_strlit("if");
    reveal_strlit("function");
    reveal_strlit("end");
    reveal_strlit("local");
    reveal_strlit("nil");
    reveal_strlit("while");
    reveal_strlit("then");
    reveal_strlit("and");
    reveal_strlit("or");
    reveal_strlit("not");
    reveal_strlit("for");
    reveal_strlit("do");
    if w == "true"@ {
        assert(w =~= seq!['t', 'r', 'u', 'e']);
    } else if w == "false"@ {
        assert(w =~= seq!['f', 'a', 'l', 's', 'e']);
    } else if w == "if"@ {
        assert(w =~= seq!['i', 'f']);
    } else if w == "function"@ {
        assert(w =~= seq!['f', 'u', 'n', 'c', 't', 'i', 'o', 'n']);
    } else if w == "end"@ {
        assert(w =~= seq!['e', 'n', 'd']);
    } else if w == "local"@ {
        assert(w =~= seq!['l', 'o', 'c', 'a', 'l']);
    } else if w == "nil"@ {
        assert(w =~= seq!['n', 'i', 'l']);
    } else if w == "while"@ {
        assert(w =~= seq!['w', 'h', 'i', 'l', 'e']);
    } else if w == "then"@ {
        assert(w =~= seq!['t', 'h', 'e', 'n']);
    } else if w == "and"@ {
        assert(w =~= seq!['a', 'n', 'd']);
    } else if w == "or"@ {
        assert(w =~= seq!['o', 'r']);
    } else if w == "not"@ {
        assert(w =~= seq!['n', 'o', 't']);
    } else if w == "for"@ {
        assert(w =~= seq!['f', 'o', 'r']);
    } else if w == "do"@ {
        assert(w =~= seq!['d', 'o']);
    }
}

/// How many newline characters stand in `s` before index `i`.
pub open spec fn newline_count(s: Seq<char>, i: int) -> int
    recommends
        0 <= i <= s.len(),
    decreases i, when 0 <= i
{
    if i <= 0 {
        0
    } else {
        newline_count(s, i - 1) + (if s[i - 1] == '\n' {
            1int
        } else {
            0int
        })
    }
}

/// The index where the line holding position `i` begins: right after the
/// last newline before `i`, or the start of the buffer.
pub open spec fn line_start(s: Seq<char>, i: int) -> int
    recommends
        0 <= i <= s.len(),
    decreases i, when 0 <= i
{
    if i <= 0 {
        0
    } else if s[i - 1] == '\n' {
        i
    } else {
        line_start(s, i - 1)
    }
}

/// The scanner state agrees with the actual line structure of the buffer:
/// the line counter is one more than the newlines already consumed, and
/// the column cursor is the cursor's offset within its line.
pub open spec fn tracks_lines(m: LexerModel) -> bool {
    &&& m.line == 1 + newline_count(m.input, m.cursor)
    &&& m.col == m.cursor - line_start(m.input, m.cursor)
}

/// A segment free of newlines changes neither the newline count nor the
/// start of the current line.
proof fn lemma_no_newline_segment(s: Seq<char>, i: int, e: int)
    requires
        0 <= i <= e <= s.len(),
        forall|k: int| i <= k < e ==> s[k] != '\n',
    ensures
        newline_count(s, e) == newline_count(s, i),
        line_start(s, e) == line_start(s, i),
    decreases e - i,
{
    if e > i {
        lemma_no_newline_segment(s, i, e - 1);
    }
}

/// Line accuracy: a pull on a state that agrees with the buffer's line
/// structure leaves a state that still agrees with it, and the produced
/// token's span addresses the consumed lexeme within its actual line:
/// `span.line` counts the newlines before the lexeme, and `span.start`
/// and `span.end` are the lexeme's offsets from the start of that line.
/// The one hypothesis is that a string literal's consumed body holds no
/// newline, as only the `Newline` token reports a line boundary.
pub proof fn lemma_line_tracking(m: LexerModel)
    requires
        m.wf(),
        tracks_lines(m),
        ({
            let (t, m2) = spec_next(m);
            (t matches Some(tok) && tok.kind is SingleLineString) ==> forall|k: int|
                m.cursor <= k < m2.cursor ==> m.input[k] != '\n'
        }),
    ensures
        tracks_lines(spec_next(m).1),
        ({
            let (t, m2) = spec_next(m);
            let gap = ws_end(m.input, m.cursor);
            t matches Some(tok) ==> {
                &&& tok.span.line == 1 + newline_count(m.input, gap)
                &&& tok.span.start == gap - line_start(m.input, gap)
                &&& tok.span.end == m2.cursor - line_start(m.input, gap)
            }
        }),
    decreases m.input.len() - m.cursor,
{
    let s = m.input;
    let i = m.cursor;
    if i >= s.len() {
    } else if is_space(s[i]) {
        let m1 = LexerModel { input: s, cursor: i + 1, col: m.col + 1, line: m.line };
        lemma_no_newline_segment(s, i, i + 1);
        lemma_line_tracking(m1);
        assert(ws_end(s, i) == ws_end(s, i + 1));
    } else {
        assert(ws_end(s, i) == i);
        lemma_scan_token(m);
        let (t, m2) = scan_token(m);
        let c = s[i];
        if c == '\n' {
        } else if c == '-' && i + 1 < s.len() && s[i + 1] == '-' {
            lemma_comment_end_bounds(s, i + 2);
            lemma_no_newline_segment(s, i, comment_end(s, i + 2));
        } else if c == '"' {
            lemma_str_scan_bounds(s, i + 1);
            lemma_no_newline_segment(s, i, m2.cursor);
        } else if is_ident_start(c) {
            lemma_ident_end_bounds(s, i);
            lemma_no_newline_segment(s, i, ident_end(s, i));
        } else if is_digit_at(s, i) {
            lemma_number_end_bounds(s, i);
            lemma_no_newline_segment(s, i, number_end(s, i));
        } else {
            lemma_no_newline_segment(s, i, m2.cursor);
        }
    }
}

/// Whitespace transparency: an input holding nothing but spaces and tabs
/// from the cursor on produces no token; the scanner consumes it all and
/// signals end of input, leaving the line counter untouched.
pub proof fn lemma_whitespace_transparent(m: LexerModel)
    requires
        m.wf(),
        forall|k: int| m.cursor <= k < m.input.len() ==> is_space(m.input[k]),
    ensures
        spec_next(m).0 is None,
        spec_next(m).1.cursor == m.input.len(),
        spec_next(m).1.line == m.line,
    decreases m.input.len() - m.cursor,
{
    if m.cursor < m.input.len() {
        lemma_whitespace_transparent(
            LexerModel { input: m.input, cursor: m.cursor + 1, col: m.col + 1, line: m.line },
        );
    }
}

/// Every identifier-shaped run reaching the end of the buffer is consumed
/// whole.
proof fn lemma_ident_end_all(s: Seq<char>, i: int)
    requires
        0 <= i <= s.len(),
        forall|k: int| i <= k < s.len() ==> is_ident_char(s[k]),
    ensures
        ident_end(s, i) == s.len(),
    decreases s.len() - i,
{
    if i < s.len() {
        lemma_ident_end_all(s, i + 1);
    }
}

/// Keyword/identifier partition: scanning an identifier-shaped string in
/// isolation yields exactly the token of the keyword table: the keyword's
/// own variant when the string is one of the fixed keywords, and `Ident`
/// carrying exactly that text otherwise — never both, and never anything
/// else.  The whole string is consumed as one token.
pub proof fn lemma_keyword_ident_partition(w: Seq<char>)
    requires
        w.len() >= 1,
        is_ident_start(w[0]),
        forall|k: int| 0 <= k < w.len() ==> is_ident_char(w[k]),
    ensures
        ({
            let m = LexerModel { input: w, cursor: 0, col: 0, line: 1 };
            let (t, m2) = spec_next(m);
            &&& t matches Some(tok) && tok.kind == word_kind(w) && tok.span.start == 0
                && tok.span.end == w.len() && tok.span.line == 1
            &&& is_keyword(w) ==> !(word_kind(w) is Ident)
            &&& !is_keyword(w) ==> word_kind(w) == TokModel::Ident(w)
            &&& m2.cursor == w.len()
        }),
{
    let m = LexerModel { input: w, cursor: 0, col: 0, line: 1 };
    lemma_ident_end_all(w, 0);
    assert(w.subrange(0, w.len() as int) =~= w);
}

} // verus!
