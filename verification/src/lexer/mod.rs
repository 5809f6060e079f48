pub mod indent;
pub mod token;

use vstd::prelude::*;

use crate::lexer::token::{keyword_kind, lookup_keyword, tokens_view, KindView, Token, TokenKind, TokenView};
use crate::text::{char_text, decimal, push_char, push_str, text, usize_text};

verus! {

#[derive(Debug, Clone)]
pub struct LexError {
    pub message: String,
    pub line: usize,
    pub col: usize,
}

impl LexError {
    /// The report of this error: `Lex error at <line>:<col>: <message>`.
    pub fn to_string(&self) -> (s: String)
        ensures
            s@ == "Lex error at "@ + decimal(self.line as nat) + ":"@ + decimal(self.col as nat)
                + ": "@ + self.message@,
    {
        let mut s = text("Lex error at ");
        push_str(&mut s, usize_text(self.line).as_str());
        push_str(&mut s, ":");
        push_str(&mut s, usize_text(self.col).as_str());
        push_str(&mut s, ": ");
        push_str(&mut s, self.message.as_str());
        s
    }
}

pub struct Lexer {
    chars: Vec<char>,
    pos: usize,
    line: usize,
    col: usize,
    indent_stack: Vec<usize>,
    at_line_start: bool,
    paren_depth: i64,
}

pub const INDENT_WIDTH: usize = 4;

/// The state of a lexer, apart from its input.
pub struct LexModel {
    pub pos: int,
    pub line: int,
    pub col: int,
    pub stack: Seq<usize>,
    pub at_line_start: bool,
    pub depth: int,
}

/// The character at `pos`, if there is one.
pub open spec fn peek_at_spec(cs: Seq<char>, pos: int) -> Option<char> {
    if 0 <= pos < cs.len() {
        Some(cs[pos])
    } else {
        None
    }
}

/// The state after consuming one character: a line break starts a new line.
pub open spec fn adv(cs: Seq<char>, m: LexModel) -> LexModel {
    if 0 <= m.pos < cs.len() {
        if cs[m.pos] == '\n' {
            LexModel { pos: m.pos + 1, line: m.line + 1, col: 1, ..m }
        } else {
            LexModel { pos: m.pos + 1, col: m.col + 1, ..m }
        }
    } else {
        m
    }
}

pub open spec fn is_digit(c: char) -> bool {
    '0' <= c && c <= '9'
}

/// An ASCII letter, `a..z` or `A..Z`: identifiers are made of these, digits and `_`.
pub open spec fn is_ascii_letter(c: char) -> bool {
    ('a' <= c && c <= 'z') || ('A' <= c && c <= 'Z')
}

/// Whether `c` may start an identifier.
fn word_start(c: char) -> (r: bool)
    ensures
        r == is_word_start(c),
{
    ('a' <= c && c <= 'z') || ('A' <= c && c <= 'Z') || c == '_'
}

/// Whether `c` may continue an identifier.
fn word_char(c: char) -> (r: bool)
    ensures
        r == is_word_char(c),
{
    ('a' <= c && c <= 'z') || ('A' <= c && c <= 'Z') || ('0' <= c && c <= '9') || c == '_'
}

pub open spec fn is_word_start(c: char) -> bool {
    is_ascii_letter(c) || c == '_'
}

pub open spec fn is_word_char(c: char) -> bool {
    is_ascii_letter(c) || is_digit(c) || c == '_'
}

/// Consumes characters while `p` holds of the next one.
pub open spec fn skip_ws(cs: Seq<char>, m: LexModel) -> LexModel
    decreases cs.len() - m.pos,
{
    if 0 <= m.pos < cs.len() && (cs[m.pos] == ' ' || cs[m.pos] == '\t' || cs[m.pos] == '\r') {
        skip_ws(cs, adv(cs, m))
    } else {
        m
    }
}

/// Consumes the spaces that open a line.
pub open spec fn skip_spaces(cs: Seq<char>, m: LexModel) -> LexModel
    decreases cs.len() - m.pos,
{
    if 0 <= m.pos < cs.len() && cs[m.pos] == ' ' {
        skip_spaces(cs, adv(cs, m))
    } else {
        m
    }
}

/// Consumes the rest of a comment, up to (not including) the line break.
pub open spec fn skip_comment_spec(cs: Seq<char>, m: LexModel) -> LexModel
    decreases cs.len() - m.pos,
{
    if 0 <= m.pos < cs.len() && cs[m.pos] != '\n' {
        skip_comment_spec(cs, adv(cs, m))
    } else {
        m
    }
}

/// Consumes a run of decimal digits.
pub open spec fn digit_run(cs: Seq<char>, m: LexModel) -> LexModel
    decreases cs.len() - m.pos,
{
    if 0 <= m.pos < cs.len() && is_digit(cs[m.pos]) {
        digit_run(cs, adv(cs, m))
    } else {
        m
    }
}

/// Consumes a run of word characters.
pub open spec fn word_run(cs: Seq<char>, m: LexModel) -> LexModel
    decreases cs.len() - m.pos,
{
    if 0 <= m.pos < cs.len() && is_word_char(cs[m.pos]) {
        word_run(cs, adv(cs, m))
    } else {
        m
    }
}

/// The value of a string of decimal digits.
pub open spec fn digits_value(s: Seq<char>) -> int
    decreases s.len(),
{
    if s.len() == 0 {
        0
    } else {
        digits_value(s.drop_last()) * 10 + (s.last() as int - '0' as int)
    }
}

proof fn lemma_digit_char_value(k: int)
    requires
        0 <= k < 10,
    ensures
        crate::text::digit_char(k) as int - '0' as int == k,
        is_digit(crate::text::digit_char(k)),
{
}

/// Reading digits gives back the number that they write: the value of the decimal
/// notation of `n` is `n`, and every character of it is a digit.
pub proof fn lemma_digits_read_back(n: nat)
    ensures
        digits_value(crate::text::decimal(n)) == n,
        forall|i: int| 0 <= i < crate::text::decimal(n).len() ==> is_digit(#[trigger] crate::text::decimal(n)[i]),
    decreases n,
{
    let d = crate::text::decimal(n);
    lemma_digit_char_value((n % 10) as int);
    if n < 10 {
        assert(d.drop_last() =~= Seq::<char>::empty());
        assert(n % 10 == n);
        assert(digits_value(d) == digits_value(d.drop_last()) * 10 + (d.last() as int - '0' as int));
    } else {
        lemma_digits_read_back(n / 10);
        assert(d.drop_last() =~= crate::text::decimal(n / 10));
        assert(digits_value(d) == digits_value(d.drop_last()) * 10 + (d.last() as int - '0' as int));
        assert((n / 10) * 10 + n % 10 == n);
        assert forall|i: int| 0 <= i < d.len() implies is_digit(#[trigger] d[i]) by {
            if i < d.len() - 1 {
                assert(d[i] == crate::text::decimal(n / 10)[i]);
            }
        }
    }
}

pub open spec fn plain(k: TokenKind, line: int, col: int) -> TokenView {
    TokenView { kind: KindView::Plain(k), line, col }
}

/// The kind of a word: a keyword, or else an identifier.
pub open spec fn word_kind(s: Seq<char>) -> KindView {
    match keyword_kind(s) {
        Some(k) => KindView::Plain(k),
        None => KindView::Name(s),
    }
}

/// Lexes a number starting at a digit: an integer literal, or a float literal when a
/// `.` and a digit follow the integer part.
pub open spec fn lex_number_spec(cs: Seq<char>, m: LexModel) -> Result<(LexModel, KindView), (int, int, Seq<char>)> {
    let m1 = digit_run(cs, m);
    if peek_at_spec(cs, m1.pos) == Some('.') && peek_at_spec(cs, m1.pos + 1) is Some
        && is_digit(cs[m1.pos + 1]) {
        let m2 = digit_run(cs, adv(cs, m1));
        Ok((m2, KindView::Float(cs.subrange(m.pos, m2.pos))))
    } else {
        let v = digits_value(cs.subrange(m.pos, m1.pos));
        if v <= i64::MAX {
            Ok((m1, KindView::Plain(TokenKind::IntLit(v as i64))))
        } else {
            Err((m1.line, m1.col, "잘못된 정수 리터럴"@))
        }
    }
}

/// The character that an escape in a string literal stands for.
pub open spec fn string_escape(e: char) -> Option<char> {
    if e == 'n' { Some('\n') }
    else if e == 't' { Some('\t') }
    else if e == 'r' { Some('\r') }
    else if e == '\\' { Some('\\') }
    else if e == '"' { Some('"') }
    else if e == '0' { Some('\0') }
    else { None }
}

/// String and character literals share their escapes: every escape letter other
/// than the two quotes stands for the same character in both.
pub proof fn lemma_escapes_agree(e: char)
    requires
        e != '"',
        e != '\'',
    ensures
        string_escape(e) == char_escape(e),
{
}

/// Distinct escapes stand for distinct characters.
pub proof fn lemma_string_escapes_distinct(e1: char, e2: char)
    requires
        string_escape(e1) is Some,
        string_escape(e1) == string_escape(e2),
    ensures
        e1 == e2,
{
}

/// What the escapes of a string literal stand for, told by how the lexer treats the
/// character: `\n` is the character that cannot stand raw inside a string literal (it
/// ends the line); `\t` is the blank other than the space that may not indent a line
/// (the tab); `\r` is the blank other than the space and the tab (the carriage return);
/// `\0` is the character of code 0; `\\` and `\"` stand for themselves.
pub proof fn lemma_string_escape_meanings()
    ensures
        string_escape('n') matches Some(c) && string_body(seq![c], initial_model(), Seq::empty()) is Err,
        string_escape('t') matches Some(c) && c != ' ' && skip_ws(seq![c], initial_model()).pos == 1
            && line_start(seq![c], initial_model(), Seq::empty()) is Fail,
        string_escape('r') matches Some(c) && c != ' ' && skip_ws(seq![c], initial_model()).pos == 1
            && !(line_start(seq![c], initial_model(), Seq::empty()) is Fail),
        string_escape('0') matches Some(c) && c as u32 == 0,
        string_escape('\\') == Some('\\'),
        string_escape('"') == Some('"'),
{
    let m0 = initial_model();
    let t = seq!['\t'];
    assert(skip_ws(t, adv(t, m0)) == adv(t, m0));
    assert(skip_spaces(t, m0) == m0);
    let r = seq!['\r'];
    assert(skip_ws(r, adv(r, m0)) == adv(r, m0));
    assert(skip_spaces(r, m0) == m0);
}

/// The character that an escape in a character literal stands for.
pub open spec fn char_escape(e: char) -> Option<char> {
    if e == 'n' { Some('\n') }
    else if e == 't' { Some('\t') }
    else if e == 'r' { Some('\r') }
    else if e == '\\' { Some('\\') }
    else if e == '\'' { Some('\'') }
    else if e == '0' { Some('\0') }
    else { None }
}

/// Lexes the body of a string literal (after the opening quote), collecting its characters
/// into `acc`, up to and including the closing quote.
pub open spec fn string_body(cs: Seq<char>, m: LexModel, acc: Seq<char>) -> Result<(LexModel, Seq<char>), (int, int, Seq<char>)>
    decreases cs.len() - m.pos,
{
    if !(0 <= m.pos < cs.len()) || cs[m.pos] == '\n' {
        Err((m.line, m.col, "문자열이 닫히지 않았습니다"@))
    } else if cs[m.pos] == '"' {
        Ok((adv(cs, m), acc))
    } else if cs[m.pos] == '\\' {
        let m1 = adv(cs, m);
        if !(m1.pos < cs.len()) {
            Err((m1.line, m1.col, "잘못된 이스케이프"@))
        } else {
            let e = cs[m1.pos];
            let m2 = adv(cs, m1);
            match string_escape(e) {
                Some(x) => string_body(cs, m2, acc.push(x)),
                None => Err((m2.line, m2.col, "알 수 없는 이스케이프: \\"@ + seq![e])),
            }
        }
    } else {
        string_body(cs, adv(cs, m), acc.push(cs[m.pos]))
    }
}

/// Lexes a character literal starting at its opening quote.
pub open spec fn lex_char_spec(cs: Seq<char>, m: LexModel) -> Result<(LexModel, char), (int, int, Seq<char>)> {
    let m1 = adv(cs, m);
    if !(0 <= m1.pos < cs.len()) {
        Err((m1.line, m1.col, "문자 리터럴이 닫히지 않았습니다"@))
    } else {
        let c0 = cs[m1.pos];
        let m2 = adv(cs, m1);
        let got: Result<(LexModel, char), (int, int, Seq<char>)> = if c0 == '\\' {
            if !(m2.pos < cs.len()) {
                Err((m2.line, m2.col, "잘못된 이스케이프"@))
            } else {
                let m3 = adv(cs, m2);
                match char_escape(cs[m2.pos]) {
                    Some(x) => Ok((m3, x)),
                    None => Err((m3.line, m3.col, "알 수 없는 이스케이프: \\"@ + seq![cs[m2.pos]])),
                }
            }
        } else {
            Ok((m2, c0))
        };
        match got {
            Err(e) => Err(e),
            Ok((m4, c)) => {
                let m5 = adv(cs, m4);
                if peek_at_spec(cs, m4.pos) == Some('\'') {
                    Ok((m5, c))
                } else {
                    Err((m5.line, m5.col, "문자 리터럴은 단일 문자여야 합니다"@))
                }
            },
        }
    }
}

/// The two-character operator or the one-character operator at the current position.
pub open spec fn two(cs: Seq<char>, m: LexModel, next: char, both: TokenKind, one: TokenKind) -> (LexModel, TokenKind) {
    if peek_at_spec(cs, m.pos) == Some(next) {
        (adv(cs, m), both)
    } else {
        (m, one)
    }
}

/// Lexes an operator or punctuation character; brackets change the nesting depth.
pub open spec fn lex_operator_spec(cs: Seq<char>, m: LexModel) -> Result<(LexModel, TokenKind), (int, int, Seq<char>)> {
    let c = cs[m.pos];
    let m1 = adv(cs, m);
    if c == '+' { Ok(two(cs, m1, '=', TokenKind::PlusAssign, TokenKind::Plus)) }
    else if c == '-' {
        if peek_at_spec(cs, m1.pos) == Some('>') { Ok((adv(cs, m1), TokenKind::Arrow)) }
        else { Ok(two(cs, m1, '=', TokenKind::MinusAssign, TokenKind::Minus)) }
    }
    else if c == '*' { Ok(two(cs, m1, '=', TokenKind::StarAssign, TokenKind::Star)) }
    else if c == '/' { Ok(two(cs, m1, '=', TokenKind::SlashAssign, TokenKind::Slash)) }
    else if c == '%' { Ok((m1, TokenKind::Percent)) }
    else if c == '=' { Ok(two(cs, m1, '=', TokenKind::Eq, TokenKind::Assign)) }
    else if c == '!' { Ok(two(cs, m1, '=', TokenKind::NotEq, TokenKind::Bang)) }
    else if c == '<' { Ok(two(cs, m1, '=', TokenKind::LtEq, TokenKind::Lt)) }
    else if c == '>' { Ok(two(cs, m1, '=', TokenKind::GtEq, TokenKind::Gt)) }
    else if c == '?' { Ok((m1, TokenKind::Question)) }
    else if c == ':' { Ok((m1, TokenKind::Colon)) }
    else if c == ',' { Ok((m1, TokenKind::Comma)) }
    else if c == '.' { Ok((m1, TokenKind::Dot)) }
    else if c == ';' { Ok((m1, TokenKind::Semicolon)) }
    else if c == '(' { Ok((LexModel { depth: m1.depth + 1, ..m1 }, TokenKind::LParen)) }
    else if c == ')' { Ok((LexModel { depth: m1.depth - 1, ..m1 }, TokenKind::RParen)) }
    else if c == '[' { Ok((LexModel { depth: m1.depth + 1, ..m1 }, TokenKind::LBracket)) }
    else if c == ']' { Ok((LexModel { depth: m1.depth - 1, ..m1 }, TokenKind::RBracket)) }
    else { Err((m.line, m.col, "알 수 없는 문자: '"@ + seq![c] + "'"@)) }
}

/// Pops the indentation levels deeper than `width`, one `Dedent` token each.
pub open spec fn pop_dedents(stack: Seq<usize>, width: int, toks: Seq<TokenView>, line: int, col: int) -> (Seq<usize>, Seq<TokenView>)
    decreases stack.len(),
{
    if stack.len() > 0 && stack.last() > width {
        pop_dedents(stack.drop_last(), width, toks.push(plain(TokenKind::Dedent, line, col)), line, col)
    } else {
        (stack, toks)
    }
}

/// Whether the line starting at `m` holds more than blanks and a comment, so that its
/// indentation is measured (no tab ends its leading spaces).
pub open spec fn indented_line(cs: Seq<char>, m: LexModel) -> bool {
    let p = peek_at_spec(cs, skip_spaces(cs, m).pos);
    p is Some && p != Some('\t') && p != Some('\n') && p != Some('#')
}

/// What handling the start of a line yields.
pub enum LineStart {
    /// A blank or comment-only line was consumed; handle the next line start.
    Retry(LexModel, Seq<TokenView>),
    /// The indentation was measured; go on lexing this line.
    Proceed(LexModel, Seq<TokenView>),
    /// An error at a line and column, with its message.
    Fail(int, int, Seq<char>),
}

/// Measures the indentation at the start of a line and emits `Indent`/`Dedent` tokens.
pub open spec fn line_start(cs: Seq<char>, m: LexModel, toks: Seq<TokenView>) -> LineStart {
    let m1 = skip_spaces(cs, m);
    let width = m1.pos - m.pos;
    let p = peek_at_spec(cs, m1.pos);
    if p == Some('\t') {
        LineStart::Fail(m1.line, m1.col, "탭 문자는 들여쓰기에 사용할 수 없습니다 (스페이스 4칸 사용)"@)
    } else if p is None {
        LineStart::Proceed(LexModel { at_line_start: false, ..m1 }, toks)
    } else if p == Some('\n') {
        LineStart::Retry(adv(cs, m1), toks)
    } else if p == Some('#') {
        let m2 = skip_comment_spec(cs, m1);
        LineStart::Retry(if peek_at_spec(cs, m2.pos) == Some('\n') { adv(cs, m2) } else { m2 }, toks)
    } else if width % 4 != 0 {
        LineStart::Fail(m.line, width + 1, "들여쓰기는 4칸 단위여야 합니다 (현재 "@ + decimal(width as nat) + "칸)"@)
    } else {
        let cur = m1.stack.last();
        if width > cur {
            LineStart::Proceed(
                LexModel { stack: m1.stack.push(width as usize), at_line_start: false, ..m1 },
                toks.push(plain(TokenKind::Indent, m.line, width + 1)),
            )
        } else if width < cur {
            let (st, ts) = pop_dedents(m1.stack, width, toks, m.line, width + 1);
            if st.last() != width {
                LineStart::Fail(m.line, width + 1, "들여쓰기 레벨이 일치하지 않습니다"@)
            } else {
                LineStart::Proceed(LexModel { stack: st, at_line_start: false, ..m1 }, ts)
            }
        } else {
            LineStart::Proceed(LexModel { at_line_start: false, ..m1 }, toks)
        }
    }
}

/// What one round of the lexing loop yields.
pub enum Step {
    Next(LexModel, Seq<TokenView>),
    Stop(LexModel, Seq<TokenView>),
    /// An error at a line and column, with its message.
    Fail(int, int, Seq<char>),
}

/// Lexes one item after the start of line has been handled.
pub open spec fn lex_item(cs: Seq<char>, m: LexModel, toks: Seq<TokenView>) -> Step {
    let m1 = skip_ws(cs, m);
    let line = m1.line;
    let col = m1.col;
    if !(0 <= m1.pos < cs.len()) {
        Step::Stop(m1, toks)
    } else {
        let c = cs[m1.pos];
        if c == '#' {
            Step::Next(skip_comment_spec(cs, m1), toks)
        } else if c == '\n' {
            let m2 = adv(cs, m1);
            if m1.depth == 0 {
                Step::Next(LexModel { at_line_start: true, ..m2 }, toks.push(plain(TokenKind::Newline, line, col)))
            } else {
                Step::Next(m2, toks)
            }
        } else if is_digit(c) {
            match lex_number_spec(cs, m1) {
                Ok((m2, k)) => Step::Next(m2, toks.push(TokenView { kind: k, line, col })),
                Err((l, cc, msg)) => Step::Fail(l, cc, msg),
            }
        } else if c == '"' {
            match string_body(cs, adv(cs, m1), Seq::empty()) {
                Ok((m2, s)) => Step::Next(m2, toks.push(TokenView { kind: KindView::Str(s), line, col })),
                Err((l, cc, msg)) => Step::Fail(l, cc, msg),
            }
        } else if c == '\'' {
            match lex_char_spec(cs, m1) {
                Ok((m2, ch)) => Step::Next(m2, toks.push(plain(TokenKind::CharLit(ch), line, col))),
                Err((l, cc, msg)) => Step::Fail(l, cc, msg),
            }
        } else if is_word_start(c) {
            let m2 = word_run(cs, m1);
            Step::Next(m2, toks.push(TokenView { kind: word_kind(cs.subrange(m1.pos, m2.pos)), line, col }))
        } else {
            match lex_operator_spec(cs, m1) {
                Ok((m2, k)) => Step::Next(m2, toks.push(plain(k, line, col))),
                Err((l, cc, msg)) => Step::Fail(l, cc, msg),
            }
        }
    }
}

/// One round of the lexing loop.
pub open spec fn lex_step(cs: Seq<char>, m: LexModel, toks: Seq<TokenView>) -> Step {
    if m.at_line_start && m.depth == 0 {
        match line_start(cs, m, toks) {
            LineStart::Fail(l, c, msg) => Step::Fail(l, c, msg),
            LineStart::Retry(m2, t2) => Step::Next(m2, t2),
            LineStart::Proceed(m2, t2) => lex_item(cs, m2, t2),
        }
    } else {
        lex_item(cs, m, toks)
    }
}

/// Closes the token stream at the end of input: a final `Newline` unless the last token
/// is one, a `Dedent` for each open indentation level, and `Eof`.
pub open spec fn close_dedents(stack_len: int, toks: Seq<TokenView>, line: int, col: int) -> Seq<TokenView>
    decreases stack_len,
{
    if stack_len > 1 {
        close_dedents(stack_len - 1, toks.push(plain(TokenKind::Dedent, line, col)), line, col)
    } else {
        toks
    }
}

pub open spec fn finish(m: LexModel, toks: Seq<TokenView>) -> Seq<TokenView> {
    let t1 = if toks.len() > 0 && toks.last().kind != KindView::Plain(TokenKind::Newline) {
        toks.push(plain(TokenKind::Newline, m.line, m.col))
    } else {
        toks
    };
    close_dedents(m.stack.len() as int, t1, m.line, m.col).push(plain(TokenKind::Eof, m.line, m.col))
}

/// The result of lexing from state `m` with tokens `toks` already emitted.
pub open spec fn lex_run(cs: Seq<char>, m: LexModel, toks: Seq<TokenView>) -> Result<Seq<TokenView>, (int, int, Seq<char>)>
    decreases cs.len() - m.pos,
{
    match lex_step(cs, m, toks) {
        Step::Fail(l, c, msg) => Err((l, c, msg)),
        Step::Stop(m2, t2) => Ok(finish(m2, t2)),
        Step::Next(m2, t2) => if m.pos < m2.pos <= cs.len() {
            lex_run(cs, m2, t2)
        } else {
            Err((m2.line, m2.col, Seq::empty()))
        },
    }
}

/// The state of a fresh lexer.
pub open spec fn initial_model() -> LexModel {
    LexModel { pos: 0, line: 1, col: 1, stack: seq![0usize], at_line_start: true, depth: 0 }
}

/// The tokens of a source text, or the position of the first lexical error.
pub open spec fn spec_tokenize(src: Seq<char>) -> Result<Seq<TokenView>, (int, int, Seq<char>)> {
    lex_run(src, initial_model(), Seq::empty())
}

/// The indentation stack starts at zero and strictly increases.
pub open spec fn stack_wf(st: Seq<usize>) -> bool {
    &&& st.len() > 0
    &&& st[0] == 0
    &&& forall|i: int, j: int| 0 <= i < j < st.len() ==> st[i] < st[j]
}

// ---------------------------------------------------------------------------
// Laws of the lexer
// ---------------------------------------------------------------------------

/// Lexing, when it succeeds, ends its tokens with `Eof`.
pub proof fn lemma_lex_ends_with_eof(cs: Seq<char>, m: LexModel, toks: Seq<TokenView>)
    ensures
        lex_run(cs, m, toks) matches Ok(t) ==> t.len() > 0 && t.last().kind == KindView::Plain(TokenKind::Eof),
    decreases cs.len() - m.pos,
{
    match lex_step(cs, m, toks) {
        Step::Next(m2, t2) => {
            if m.pos < m2.pos <= cs.len() {
                lemma_lex_ends_with_eof(cs, m2, t2);
            }
        },
        _ => {},
    }
}

/// The tokens of a source text that lexes end with `Eof`.
pub proof fn lemma_tokens_end_with_eof(src: Seq<char>)
    ensures
        spec_tokenize(src) matches Ok(t) ==> t.len() > 0 && t.last().kind == KindView::Plain(TokenKind::Eof),
{
    lemma_lex_ends_with_eof(src, initial_model(), Seq::empty());
}

impl Lexer {
    pub closed spec fn model(&self) -> LexModel {
        LexModel {
            pos: self.pos as int,
            line: self.line as int,
            col: self.col as int,
            stack: self.indent_stack@,
            at_line_start: self.at_line_start,
            depth: self.paren_depth as int,
        }
    }

    pub closed spec fn source(&self) -> Seq<char> {
        self.chars@
    }

    pub closed spec fn wf(&self) -> bool {
        &&& self.chars.len() <= isize::MAX
        &&& self.pos <= self.chars.len()
        &&& 1 <= self.line <= self.pos + 1
        &&& 1 <= self.col <= self.pos + 1
        &&& stack_wf(self.indent_stack@)
        &&& -(self.pos as int) <= self.paren_depth <= self.pos
    }

    pub fn new(source: &str) -> (lx: Self)
        requires
            source@.len() <= isize::MAX,
        ensures
            lx.wf(),
            lx.source() == source@,
            lx.model() == initial_model(),
    {
        let chars = crate::lexer::token::chars_of(source);
        let mut indent_stack: Vec<usize> = Vec::new();
        indent_stack.push(0);
        let lx = Lexer { chars, pos: 0, line: 1, col: 1, indent_stack, at_line_start: true, paren_depth: 0 };
        assert(lx.model().stack =~= seq![0usize]);
        lx
    }

    fn peek(&self) -> (r: Option<char>)
        ensures
            r == peek_at_spec(self.chars@, self.pos as int),
    {
        if self.pos < self.chars.len() {
            Some(self.chars[self.pos])
        } else {
            None
        }
    }

    fn peek_at(&self, offset: usize) -> (r: Option<char>)
        requires
            self.wf(),
            offset <= 1,
        ensures
            r == peek_at_spec(self.chars@, self.pos + offset),
    {
        let p = self.pos + offset;
        if p < self.chars.len() {
            Some(self.chars[p])
        } else {
            None
        }
    }

    fn advance(&mut self) -> (r: Option<char>)
        requires
            old(self).wf(),
        ensures
            final(self).wf(),
            final(self).chars@ == old(self).chars@,
            final(self).model() == adv(old(self).chars@, old(self).model()),
            r == peek_at_spec(old(self).chars@, old(self).pos as int),
    {
        let c = match self.peek() {
            Some(c) => c,
            None => return None,
        };
        self.pos += 1;
        if c == '\n' {
            self.line += 1;
            self.col = 1;
        } else {
            self.col += 1;
        }
        Some(c)
    }

    fn err(&self, msg: String) -> (e: LexError)
        ensures
            e.line == self.line,
            e.col == self.col,
            e.message == msg,
    {
        LexError { message: msg, line: self.line, col: self.col }
    }

    fn skip_inline_whitespace(&mut self)
        requires
            old(self).wf(),
        ensures
            final(self).wf(),
            final(self).chars@ == old(self).chars@,
            final(self).model() == skip_ws(old(self).chars@, old(self).model()),
    {
        let ghost cs = self.chars@;
        let ghost m0 = self.model();
        loop
            invariant
                self.wf(),
                self.chars@ == cs,
                cs == old(self).chars@,
                m0 == old(self).model(),
                skip_ws(cs, self.model()) == skip_ws(cs, m0),
            decreases self.chars.len() - self.pos,
        {
            match self.peek() {
                Some(c) => {
                    if c == ' ' || c == '\t' || c == '\r' {
                        self.advance();
                    } else {
                        return;
                    }
                },
                None => return,
            }
        }
    }

    fn skip_comment(&mut self)
        requires
            old(self).wf(),
        ensures
            final(self).wf(),
            final(self).chars@ == old(self).chars@,
            final(self).model() == skip_comment_spec(old(self).chars@, old(self).model()),
    {
        let ghost cs = self.chars@;
        let ghost m0 = self.model();
        loop
            invariant
                self.wf(),
                self.chars@ == cs,
                cs == old(self).chars@,
                m0 == old(self).model(),
                skip_comment_spec(cs, self.model()) == skip_comment_spec(cs, m0),
            decreases self.chars.len() - self.pos,
        {
            match self.peek() {
                Some(c) => {
                    if c == '\n' {
                        return;
                    }
                    self.advance();
                },
                None => return,
            }
        }
    }
}


proof fn lemma_skip_ws_mono(cs: Seq<char>, m: LexModel)
    requires
        0 <= m.pos <= cs.len(),
    ensures
        m.pos <= skip_ws(cs, m).pos <= cs.len(),
    decreases cs.len() - m.pos,
{
    if 0 <= m.pos < cs.len() && (cs[m.pos] == ' ' || cs[m.pos] == '\t' || cs[m.pos] == '\r') {
        lemma_skip_ws_mono(cs, adv(cs, m));
    }
}

proof fn lemma_skip_spaces_mono(cs: Seq<char>, m: LexModel)
    requires
        0 <= m.pos <= cs.len(),
    ensures
        m.pos <= skip_spaces(cs, m).pos <= cs.len(),
    decreases cs.len() - m.pos,
{
    if 0 <= m.pos < cs.len() && cs[m.pos] == ' ' {
        lemma_skip_spaces_mono(cs, adv(cs, m));
    }
}

proof fn lemma_skip_comment_mono(cs: Seq<char>, m: LexModel)
    requires
        0 <= m.pos <= cs.len(),
    ensures
        m.pos <= skip_comment_spec(cs, m).pos <= cs.len(),
    decreases cs.len() - m.pos,
{
    if 0 <= m.pos < cs.len() && cs[m.pos] != '\n' {
        lemma_skip_comment_mono(cs, adv(cs, m));
    }
}

proof fn lemma_digit_run_mono(cs: Seq<char>, m: LexModel)
    requires
        0 <= m.pos <= cs.len(),
    ensures
        m.pos <= digit_run(cs, m).pos <= cs.len(),
    decreases cs.len() - m.pos,
{
    if 0 <= m.pos < cs.len() && is_digit(cs[m.pos]) {
        lemma_digit_run_mono(cs, adv(cs, m));
    }
}

proof fn lemma_word_run_mono(cs: Seq<char>, m: LexModel)
    requires
        0 <= m.pos <= cs.len(),
    ensures
        m.pos <= word_run(cs, m).pos <= cs.len(),
    decreases cs.len() - m.pos,
{
    if 0 <= m.pos < cs.len() && is_word_char(cs[m.pos]) {
        lemma_word_run_mono(cs, adv(cs, m));
    }
}

proof fn lemma_string_body_mono(cs: Seq<char>, m: LexModel, acc: Seq<char>)
    requires
        0 <= m.pos <= cs.len(),
    ensures
        string_body(cs, m, acc) matches Ok((m2, _)) ==> m.pos < m2.pos <= cs.len(),
    decreases cs.len() - m.pos,
{
    if !(!(0 <= m.pos < cs.len()) || cs[m.pos] == '\n') && cs[m.pos] != '"' {
        if cs[m.pos] == '\\' {
            let m1 = adv(cs, m);
            if m1.pos < cs.len() {
                let m2 = adv(cs, m1);
                if string_escape(cs[m1.pos]) is Some {
                    lemma_string_body_mono(cs, m2, acc.push(string_escape(cs[m1.pos])->0));
                }
            }
        } else {
            lemma_string_body_mono(cs, adv(cs, m), acc.push(cs[m.pos]));
        }
    }
}

proof fn lemma_tokens_view_push(ts: Seq<Token>, t: Token)
    ensures
        tokens_view(ts.push(t)) == tokens_view(ts).push(t@),
{
    assert(tokens_view(ts.push(t)) =~= tokens_view(ts).push(t@));
}

proof fn lemma_digits_step(cs: Seq<char>, a: int, b: int)
    requires
        0 <= a <= b < cs.len(),
    ensures
        digits_value(cs.subrange(a, b + 1)) == digits_value(cs.subrange(a, b)) * 10 + (cs[b] as int - '0' as int),
{
    assert(cs.subrange(a, b + 1).drop_last() =~= cs.subrange(a, b));
}

impl Lexer {
    fn peek_is(&self, c: char) -> (r: bool)
        ensures
            r == (peek_at_spec(self.chars@, self.pos as int) == Some(c)),
    {
        if self.pos < self.chars.len() {
            self.chars[self.pos] == c
        } else {
            false
        }
    }

    fn peek_is_digit(&self) -> (r: bool)
        ensures
            r == (0 <= self.pos < self.chars@.len() && is_digit(self.chars@[self.pos as int])),
    {
        if self.pos < self.chars.len() {
            let c = self.chars[self.pos];
            '0' <= c && c <= '9'
        } else {
            false
        }
    }

    fn peek_is_word_char(&self) -> (r: bool)
        ensures
            r == (0 <= self.pos < self.chars@.len() && is_word_char(self.chars@[self.pos as int])),
    {
        if self.pos < self.chars.len() {
            let c = self.chars[self.pos];
            word_char(c)
        } else {
            false
        }
    }

    /// Measures the indentation at the start of a line and emits `Indent`/`Dedent` tokens.
    /// `Ok(true)`: a blank or comment-only line was consumed and the caller retries.
    fn handle_line_start(&mut self, tokens: &mut Vec<Token>) -> (r: Result<bool, LexError>)
        requires
            old(self).wf(),
        ensures
            final(self).wf(),
            final(self).chars@ == old(self).chars@,
            match line_start(old(self).chars@, old(self).model(), tokens_view(old(tokens)@)) {
                LineStart::Retry(m, t) => r == Ok::<bool, LexError>(true) && final(self).model() == m
                    && tokens_view(final(tokens)@) == t,
                LineStart::Proceed(m, t) => r == Ok::<bool, LexError>(false) && final(self).model() == m
                    && tokens_view(final(tokens)@) == t,
                LineStart::Fail(l, c, msg) => r matches Err(e) && e.line == l && e.col == c && e.message@ == msg,
            },
            ({
                let m1 = skip_spaces(old(self).chars@, old(self).model());
                let w = m1.pos - old(self).model().pos;
                let p = peek_at_spec(old(self).chars@, m1.pos);
                let (st, ts) = pop_dedents(m1.stack, w, tokens_view(old(tokens)@), old(self).model().line, w + 1);
                &&& p == Some('\t') ==> (r matches Err(e) && e.message@
                    == "탭 문자는 들여쓰기에 사용할 수 없습니다 (스페이스 4칸 사용)"@)
                &&& indented_line(old(self).chars@, old(self).model()) && w % 4 != 0 ==> (r matches Err(e) && e.message@
                    == "들여쓰기는 4칸 단위여야 합니다 (현재 "@ + decimal(w as nat) + "칸)"@)
                &&& indented_line(old(self).chars@, old(self).model()) && w % 4 == 0 && w < m1.stack.last() && st.last()
                    != w ==> (r matches Err(e) && e.message@ == "들여쓰기 레벨이 일치하지 않습니다"@
                    && final(self).model().stack == st && tokens_view(final(tokens)@) == ts)
            }),
    {
        let ghost cs = self.chars@;
        let ghost m0 = self.model();
        let ghost t0 = tokens_view(tokens@);
        let start_line = self.line;
        let mut width: usize = 0;
        while self.peek_is(' ')
            invariant
                self.wf(),
                self.chars@ == cs,
                skip_spaces(cs, self.model()) == skip_spaces(cs, m0),
                width == self.pos - m0.pos,
                self.line == m0.line,
                self.indent_stack@ == m0.stack,
                self.at_line_start == m0.at_line_start,
                self.paren_depth == m0.depth,
                m0.pos <= self.pos,
                m0 == old(self).model(),
                cs == old(self).chars@,
                t0 == tokens_view(tokens@),
                tokens@ == old(tokens)@,
            decreases self.chars.len() - self.pos,
        {
            assert(self.pos < self.chars@.len());
            width += 1;
            self.advance();
        }
        let ghost m1 = self.model();
        assert(m1 == skip_spaces(cs, m0));
        if self.peek_is('\t') {
            return Err(self.err(text("탭 문자는 들여쓰기에 사용할 수 없습니다 (스페이스 4칸 사용)")));
        }
        match self.peek() {
            None => {
                self.at_line_start = false;
                assert(self.model() == LexModel { at_line_start: false, ..m1 });
                return Ok(false);
            },
            Some(c) => {
                if c == '\n' {
                    self.advance();
                    return Ok(true);
                } else if c == '#' {
                    self.skip_comment();
                    if self.peek_is('\n') {
                        self.advance();
                    }
                    return Ok(true);
                }
            },
        }
        if width % INDENT_WIDTH != 0 {
            let mut msg = text("들여쓰기는 4칸 단위여야 합니다 (현재 ");
            push_str(&mut msg, usize_text(width).as_str());
            push_str(&mut msg, "칸)");
            return Err(LexError { message: msg, line: start_line, col: width + 1 });
        }
        let current = self.indent_stack[self.indent_stack.len() - 1];
        if width > current {
            self.indent_stack.push(width);
            let t = Token::new(TokenKind::Indent, start_line, width + 1);
            proof { lemma_tokens_view_push(tokens@, t); }
            tokens.push(t);
            assert(self.indent_stack@ == m1.stack.push(width));
        } else if width < current {
            let ghost st0 = self.indent_stack@;
            while self.indent_stack[self.indent_stack.len() - 1] > width
                invariant
                    self.wf(),
                    self.chars@ == cs,
                    self.pos == m1.pos,
                    self.line == m1.line,
                    self.col == m1.col,
                    self.at_line_start == m1.at_line_start,
                    self.paren_depth == m1.depth,
                    width == m1.pos - m0.pos,
                    start_line == m0.line,
                    m0 == old(self).model(),
                    cs == old(self).chars@,
                    t0 == tokens_view(old(tokens)@),
                    m1 == skip_spaces(cs, m0),
                    pop_dedents(self.indent_stack@, width as int, tokens_view(tokens@), start_line as int, width + 1)
                        == pop_dedents(st0, width as int, t0, m0.line, width + 1),
                decreases self.indent_stack.len(),
            {
                let t = Token::new(TokenKind::Dedent, start_line, width + 1);
                proof {
                    let st = self.indent_stack@;
                    if st.len() == 1 {
                        assert(st.last() == st[0]);
                    }
                    lemma_tokens_view_push(tokens@, t);
                    assert(st.drop_last() =~= st.subrange(0, st.len() - 1));
                }
                self.indent_stack.pop();
                tokens.push(t);
            }
            if self.indent_stack[self.indent_stack.len() - 1] != width {
                return Err(LexError {
                    message: text("들여쓰기 레벨이 일치하지 않습니다"),
                    line: start_line,
                    col: width + 1,
                });
            }
        }
        self.at_line_start = false;
        Ok(false)
    }
}


impl Lexer {
    fn lex_number(&mut self) -> (r: Result<Token, LexError>)
        requires
            old(self).wf(),
        ensures
            final(self).wf(),
            final(self).chars@ == old(self).chars@,
            match lex_number_spec(old(self).chars@, old(self).model()) {
                Ok((m, k)) => r matches Ok(t) && final(self).model() == m
                    && t@ == (TokenView { kind: k, line: old(self).line as int, col: old(self).col as int }),
                Err((l, c, msg)) => r matches Err(e) && e.line == l && e.col == c && e.message@ == msg,
            },
    {
        let ghost cs = self.chars@;
        let ghost m0 = self.model();
        let line = self.line;
        let col = self.col;
        let start = self.pos;
        let mut s = String::new();
        // `acc` is the value of the digits read so far, or `None` once it exceeds `i64::MAX`.
        let mut acc: Option<i64> = Some(0);
        while self.peek_is_digit()
            invariant
                self.wf(),
                self.chars@ == cs,
                m0 == old(self).model(),
                cs == old(self).chars@,
                start == m0.pos,
                start <= self.pos,
                digit_run(cs, self.model()) == digit_run(cs, m0),
                s@ == cs.subrange(start as int, self.pos as int),
                acc matches Some(v) ==> v == digits_value(cs.subrange(start as int, self.pos as int)),
                acc is None ==> digits_value(cs.subrange(start as int, self.pos as int)) > i64::MAX,
                digits_value(cs.subrange(start as int, self.pos as int)) >= 0,
                self.line == m0.line,
                self.indent_stack@ == m0.stack,
                self.at_line_start == m0.at_line_start,
                self.paren_depth == m0.depth,
            decreases self.chars.len() - self.pos,
        {
            let c = self.chars[self.pos];
            let d: i64 = if c == '0' { 0 } else if c == '1' { 1 } else if c == '2' { 2 } else if c == '3' { 3 }
                else if c == '4' { 4 } else if c == '5' { 5 } else if c == '6' { 6 } else if c == '7' { 7 }
                else if c == '8' { 8 } else { 9 };
            proof {
                lemma_digits_step(cs, start as int, self.pos as int);
                assert(d == c as int - '0' as int);
            }
            let ghost old_val = digits_value(cs.subrange(start as int, self.pos as int));
            acc = match acc {
                Some(v) => {
                    if v > (i64::MAX - d) / 10 {
                        assert(v * 10 + d > i64::MAX) by (nonlinear_arith)
                            requires v > (i64::MAX - d) / 10, 0 <= d <= 9;
                        None
                    } else {
                        assert(v * 10 + d <= i64::MAX) by (nonlinear_arith)
                            requires v <= (i64::MAX - d) / 10, 0 <= d <= 9, v >= 0;
                        Some(v * 10 + d)
                    }
                },
                None => {
                    assert(old_val * 10 + d > i64::MAX) by (nonlinear_arith)
                        requires old_val > i64::MAX, 0 <= d <= 9;
                    None
                },
            };
            push_char(&mut s, c);
            self.advance();
            assert(s@ =~= cs.subrange(start as int, self.pos as int));
        }
        let ghost m1 = self.model();
        if self.peek_is('.') && match self.peek_at(1) {
            Some(c) => '0' <= c && c <= '9',
            None => false,
        } {
            push_char(&mut s, '.');
            self.advance();
            assert(s@ =~= cs.subrange(start as int, self.pos as int));
            let ghost m2 = self.model();
            while self.peek_is_digit()
                invariant
                    self.wf(),
                    self.chars@ == cs,
                    start <= self.pos,
                    digit_run(cs, self.model()) == digit_run(cs, m2),
                    s@ == cs.subrange(start as int, self.pos as int),
                decreases self.chars.len() - self.pos,
            {
                let c = self.chars[self.pos];
                push_char(&mut s, c);
                self.advance();
                assert(s@ =~= cs.subrange(start as int, self.pos as int));
            }
            let t = Token::new(TokenKind::FloatLit(s), line, col);
            return Ok(t);
        }
        match acc {
            Some(v) => Ok(Token::new(TokenKind::IntLit(v), line, col)),
            None => Err(self.err(text("잘못된 정수 리터럴"))),
        }
    }

    fn lex_string(&mut self) -> (r: Result<Token, LexError>)
        requires
            old(self).wf(),
        ensures
            final(self).wf(),
            final(self).chars@ == old(self).chars@,
            match string_body(old(self).chars@, adv(old(self).chars@, old(self).model()), Seq::empty()) {
                Ok((m, body)) => r matches Ok(t) && final(self).model() == m
                    && t@ == (TokenView { kind: KindView::Str(body), line: old(self).line as int, col: old(self).col as int }),
                Err((l, c, msg)) => r matches Err(e) && e.line == l && e.col == c && e.message@ == msg,
            },
    {
        let ghost cs = self.chars@;
        let line = self.line;
        let col = self.col;
        self.advance();
        let ghost m1 = self.model();
        let mut s = String::new();
        loop
            invariant
                self.wf(),
                self.chars@ == cs,
                cs == old(self).chars@,
                m1 == adv(cs, old(self).model()),
                line == old(self).line,
                col == old(self).col,
                string_body(cs, self.model(), s@) == string_body(cs, m1, Seq::empty()),
            decreases self.chars.len() - self.pos,
        {
            match self.peek() {
                None => return Err(self.err(text("문자열이 닫히지 않았습니다"))),
                Some(c) => {
                    if c == '\n' {
                        return Err(self.err(text("문자열이 닫히지 않았습니다")));
                    } else if c == '"' {
                        self.advance();
                        return Ok(Token::new(TokenKind::StringLit(s), line, col));
                    } else if c == '\\' {
                        self.advance();
                        let esc = match self.advance() {
                            Some(e) => e,
                            None => return Err(self.err(text("잘못된 이스케이프"))),
                        };
                        let x = if esc == 'n' { '\n' }
                            else if esc == 't' { '\t' }
                            else if esc == 'r' { '\r' }
                            else if esc == '\\' { '\\' }
                            else if esc == '"' { '"' }
                            else if esc == '0' { '\0' }
                            else {
                                let mut msg = text("알 수 없는 이스케이프: \\");
                                push_str(&mut msg, char_text(esc).as_str());
                                return Err(self.err(msg));
                            };
                        push_char(&mut s, x);
                    } else {
                        push_char(&mut s, c);
                        self.advance();
                    }
                },
            }
        }
    }

    fn lex_char(&mut self) -> (r: Result<Token, LexError>)
        requires
            old(self).wf(),
        ensures
            final(self).wf(),
            final(self).chars@ == old(self).chars@,
            match lex_char_spec(old(self).chars@, old(self).model()) {
                Ok((m, ch)) => r matches Ok(t) && final(self).model() == m
                    && t@ == plain(TokenKind::CharLit(ch), old(self).line as int, old(self).col as int),
                Err((l, c, msg)) => r matches Err(e) && e.line == l && e.col == c && e.message@ == msg,
            },
    {
        let line = self.line;
        let col = self.col;
        self.advance();
        let c = match self.advance() {
            Some(c0) => {
                if c0 == '\\' {
                    let esc = match self.advance() {
                        Some(e) => e,
                        None => return Err(self.err(text("잘못된 이스케이프"))),
                    };
                    if esc == 'n' { '\n' }
                    else if esc == 't' { '\t' }
                    else if esc == 'r' { '\r' }
                    else if esc == '\\' { '\\' }
                    else if esc == '\'' { '\'' }
                    else if esc == '0' { '\0' }
                    else {
                        let mut msg = text("알 수 없는 이스케이프: \\");
                        push_str(&mut msg, char_text(esc).as_str());
                        return Err(self.err(msg));
                    }
                } else {
                    c0
                }
            },
            None => return Err(self.err(text("문자 리터럴이 닫히지 않았습니다"))),
        };
        let closing = self.advance();
        let ok = match closing {
            Some(q) => q == '\'',
            None => false,
        };
        if !ok {
            return Err(self.err(text("문자 리터럴은 단일 문자여야 합니다")));
        }
        Ok(Token::new(TokenKind::CharLit(c), line, col))
    }

    fn lex_ident_or_keyword(&mut self) -> (t: Token)
        requires
            old(self).wf(),
        ensures
            final(self).wf(),
            final(self).chars@ == old(self).chars@,
            final(self).model() == word_run(old(self).chars@, old(self).model()),
            t@ == (TokenView {
                kind: word_kind(old(self).chars@.subrange(old(self).pos as int, final(self).pos as int)),
                line: old(self).line as int,
                col: old(self).col as int,
            }),
    {
        let ghost cs = self.chars@;
        let ghost m0 = self.model();
        let line = self.line;
        let col = self.col;
        let start = self.pos;
        let mut s = String::new();
        while self.peek_is_word_char()
            invariant
                self.wf(),
                self.chars@ == cs,
                start <= self.pos,
                word_run(cs, self.model()) == word_run(cs, m0),
                s@ == cs.subrange(start as int, self.pos as int),
            decreases self.chars.len() - self.pos,
        {
            let c = self.chars[self.pos];
            push_char(&mut s, c);
            self.advance();
            assert(s@ =~= cs.subrange(start as int, self.pos as int));
        }
        let kind = match lookup_keyword(s.as_str()) {
            Some(k) => k,
            None => TokenKind::Ident(s),
        };
        Token::new(kind, line, col)
    }

    fn two(&mut self, next: char, both: TokenKind, one: TokenKind) -> (k: TokenKind)
        requires
            old(self).wf(),
        ensures
            final(self).wf(),
            final(self).chars@ == old(self).chars@,
            (final(self).model(), k) == two(old(self).chars@, old(self).model(), next, both, one),
    {
        if self.peek_is(next) {
            self.advance();
            both
        } else {
            one
        }
    }

    fn lex_operator(&mut self) -> (r: Result<Token, LexError>)
        requires
            old(self).wf(),
            old(self).pos < old(self).chars@.len(),
        ensures
            final(self).wf(),
            final(self).chars@ == old(self).chars@,
            match lex_operator_spec(old(self).chars@, old(self).model()) {
                Ok((m, k)) => r matches Ok(t) && final(self).model() == m
                    && t@ == plain(k, old(self).line as int, old(self).col as int),
                Err((l, c, msg)) => r matches Err(e) && e.line == l && e.col == c && e.message@ == msg,
            },
    {
        let line = self.line;
        let col = self.col;
        let c = self.chars[self.pos];
        self.advance();
        let kind = if c == '+' {
            self.two('=', TokenKind::PlusAssign, TokenKind::Plus)
        } else if c == '-' {
            if self.peek_is('>') {
                self.advance();
                TokenKind::Arrow
            } else {
                self.two('=', TokenKind::MinusAssign, TokenKind::Minus)
            }
        } else if c == '*' {
            self.two('=', TokenKind::StarAssign, TokenKind::Star)
        } else if c == '/' {
            self.two('=', TokenKind::SlashAssign, TokenKind::Slash)
        } else if c == '%' {
            TokenKind::Percent
        } else if c == '=' {
            self.two('=', TokenKind::Eq, TokenKind::Assign)
        } else if c == '!' {
            self.two('=', TokenKind::NotEq, TokenKind::Bang)
        } else if c == '<' {
            self.two('=', TokenKind::LtEq, TokenKind::Lt)
        } else if c == '>' {
            self.two('=', TokenKind::GtEq, TokenKind::Gt)
        } else if c == '?' {
            TokenKind::Question
        } else if c == ':' {
            TokenKind::Colon
        } else if c == ',' {
            TokenKind::Comma
        } else if c == '.' {
            TokenKind::Dot
        } else if c == ';' {
            TokenKind::Semicolon
        } else if c == '(' {
            self.paren_depth += 1;
            TokenKind::LParen
        } else if c == ')' {
            self.paren_depth -= 1;
            TokenKind::RParen
        } else if c == '[' {
            self.paren_depth += 1;
            TokenKind::LBracket
        } else if c == ']' {
            self.paren_depth -= 1;
            TokenKind::RBracket
        } else {
            let mut msg = text("알 수 없는 문자: '");
            push_str(&mut msg, char_text(c).as_str());
            push_str(&mut msg, "'");
            return Err(LexError { message: msg, line, col });
        };
        Ok(Token::new(kind, line, col))
    }
}



/// The facts about a `Next` step that the main loop relies on.
pub open spec fn step_ok(cs: Seq<char>, m: LexModel, r: Result<bool, LexError>, mf: LexModel, tf: Seq<TokenView>, st: Step) -> bool {
    match st {
        Step::Next(m2, t2) => r == Ok::<bool, LexError>(false) && mf == m2 && tf == t2 && m.pos < m2.pos <= cs.len(),
        Step::Stop(m2, t2) => r == Ok::<bool, LexError>(true) && mf == m2 && tf == t2,
        Step::Fail(l, c, msg) => r matches Err(e) && e.line == l && e.col == c && e.message@ == msg,
    }
}

impl Lexer {
    /// Lexes one item (after the start of the line has been handled).
    /// `Ok(true)`: the input is exhausted.
    #[verifier::rlimit(40)]
    fn lex_item(&mut self, tokens: &mut Vec<Token>) -> (r: Result<bool, LexError>)
        requires
            old(self).wf(),
        ensures
            final(self).wf(),
            final(self).chars@ == old(self).chars@,
            step_ok(old(self).chars@, old(self).model(), r, final(self).model(), tokens_view(final(tokens)@),
                lex_item(old(self).chars@, old(self).model(), tokens_view(old(tokens)@))),
    {
        let ghost cs = self.chars@;
        let ghost mi = self.model();
        let ghost ti = tokens_view(tokens@);
        proof { lemma_skip_ws_mono(cs, mi); }
        self.skip_inline_whitespace();
        let ghost m1 = self.model();
        let line = self.line;
        let col = self.col;
        let c = match self.peek() {
            Some(c) => c,
            None => {
                return Ok(true);
            },
        };
        if c == '#' {
            proof {
                lemma_skip_comment_mono(cs, adv(cs, m1));
            }
            self.skip_comment();
            return Ok(false);
        }
        if c == '\n' {
            self.advance();
            if self.paren_depth == 0 {
                let t = Token::new(TokenKind::Newline, line, col);
                proof { lemma_tokens_view_push(tokens@, t); }
                tokens.push(t);
                self.at_line_start = true;
            }
            return Ok(false);
        }
        if '0' <= c && c <= '9' {
            proof {
                lemma_digit_run_mono(cs, adv(cs, m1));
                let ma = adv(cs, m1);
                let mb = digit_run(cs, ma);
                if peek_at_spec(cs, mb.pos) == Some('.') && mb.pos + 1 < cs.len() {
                    lemma_digit_run_mono(cs, adv(cs, mb));
                }
            }
            let t = self.lex_number()?;
            proof { lemma_tokens_view_push(tokens@, t); }
            tokens.push(t);
            return Ok(false);
        }
        if c == '"' {
            proof { lemma_string_body_mono(cs, adv(cs, m1), Seq::empty()); }
            let t = self.lex_string()?;
            proof { lemma_tokens_view_push(tokens@, t); }
            tokens.push(t);
            return Ok(false);
        }
        if c == '\'' {
            let t = self.lex_char()?;
            proof { lemma_tokens_view_push(tokens@, t); }
            tokens.push(t);
            return Ok(false);
        }
        if word_start(c) {
            proof { lemma_word_run_mono(cs, adv(cs, m1)); }
            let t = self.lex_ident_or_keyword();
            proof { lemma_tokens_view_push(tokens@, t); }
            tokens.push(t);
            return Ok(false);
        }
        let t = self.lex_operator()?;
        proof { lemma_tokens_view_push(tokens@, t); }
        tokens.push(t);
        Ok(false)
    }

    /// One round of the lexing loop. `Ok(true)`: the input is exhausted.
    fn lex_round(&mut self, tokens: &mut Vec<Token>) -> (r: Result<bool, LexError>)
        requires
            old(self).wf(),
        ensures
            final(self).wf(),
            final(self).chars@ == old(self).chars@,
            step_ok(old(self).chars@, old(self).model(), r, final(self).model(), tokens_view(final(tokens)@),
                lex_step(old(self).chars@, old(self).model(), tokens_view(old(tokens)@))),
    {
        let ghost cs = self.chars@;
        let ghost ms = self.model();
        if self.at_line_start && self.paren_depth == 0 {
            match self.handle_line_start(tokens) {
                Err(e) => return Err(e),
                Ok(true) => {
                    proof {
                        lemma_skip_spaces_mono(cs, ms);
                        let m1 = skip_spaces(cs, ms);
                        if peek_at_spec(cs, m1.pos) == Some('#') {
                            lemma_skip_comment_mono(cs, adv(cs, m1));
                        }
                    }
                    return Ok(false);
                },
                Ok(false) => {},
            }
        }
        self.lex_item(tokens)
    }

    /// Closes the token stream: a final `Newline` unless the last token is one, a `Dedent`
    /// for each open indentation level, and `Eof`.
    fn finish_tokens(&mut self, tokens: &mut Vec<Token>)
        requires
            old(self).wf(),
        ensures
            tokens_view(final(tokens)@) == finish(old(self).model(), tokens_view(old(tokens)@)),
    {
        let ghost mf = self.model();
        let ghost tf = tokens_view(tokens@);
        let line = self.line;
        let col = self.col;
        if tokens.len() > 0 {
            let needs_newline = match tokens[tokens.len() - 1].kind {
                TokenKind::Newline => false,
                _ => true,
            };
            if needs_newline {
                let t = Token::new(TokenKind::Newline, line, col);
                proof { lemma_tokens_view_push(tokens@, t); }
                tokens.push(t);
            }
        }
        let ghost t1 = tokens_view(tokens@);
        assert(t1 == (if tf.len() > 0 && tf.last().kind != KindView::Plain(TokenKind::Newline) {
            tf.push(plain(TokenKind::Newline, mf.line, mf.col))
        } else {
            tf
        }));
        while self.indent_stack.len() > 1
            invariant
                self.indent_stack@.len() >= 1,
                close_dedents(self.indent_stack@.len() as int, tokens_view(tokens@), line as int, col as int)
                    == close_dedents(mf.stack.len() as int, t1, mf.line, mf.col),
                line == mf.line,
                col == mf.col,
            decreases self.indent_stack.len(),
        {
            self.indent_stack.pop();
            let t = Token::new(TokenKind::Dedent, line, col);
            proof { lemma_tokens_view_push(tokens@, t); }
            tokens.push(t);
        }
        let t = Token::new(TokenKind::Eof, line, col);
        proof { lemma_tokens_view_push(tokens@, t); }
        tokens.push(t);
    }

    /// Lexes the whole input into tokens.
    pub fn tokenize(self) -> (r: Result<Vec<Token>, LexError>)
        requires
            self.wf(),
        ensures
            match lex_run(self.source(), self.model(), Seq::empty()) {
                Ok(t) => r matches Ok(v) && tokens_view(v@) == t,
                Err((l, c, msg)) => r matches Err(e) && e.line == l && e.col == c && e.message@ == msg,
            },
            r is Ok ==> tokens_view((r->Ok_0)@).len() > 0 && tokens_view((r->Ok_0)@).last().kind == KindView::Plain(
                TokenKind::Eof,
            ),
            r is Ok && self.model() == initial_model() ==> crate::lexer::indent::indent_depth(tokens_view((r->Ok_0)@))
                == 0 && crate::lexer::indent::prefixes_balanced(tokens_view((r->Ok_0)@))
                && crate::lexer::indent::eof_free(tokens_view((r->Ok_0)@).drop_last()),
    {
        proof {
            lemma_lex_ends_with_eof(self.source(), self.model(), Seq::empty());
            crate::lexer::indent::lemma_indents_balance(self.source());
            crate::lexer::indent::lemma_eof_only_last(self.source());
        }
        let ghost cs = self.chars@;
        let ghost m0 = self.model();
        proof {
            lemma_lex_ends_with_eof(self.source(), self.model(), Seq::empty());
        }
        let mut lx = self;
        let mut tokens: Vec<Token> = Vec::new();
        assert(tokens_view(tokens@) =~= Seq::<TokenView>::empty());
        loop
            invariant
                lx.wf(),
                lx.chars@ == cs,
                lex_run(cs, lx.model(), tokens_view(tokens@)) == lex_run(cs, m0, Seq::empty()),
                cs == self.chars@,
                m0 == self.model(),
            ensures
                lx.wf(),
                lex_run(cs, m0, Seq::empty()) == Ok::<Seq<TokenView>, (int, int, Seq<char>)>(finish(lx.model(), tokens_view(tokens@))),
            decreases lx.chars.len() - lx.pos,
        {
            let ghost ms = lx.model();
            let ghost ts = tokens_view(tokens@);
            match lx.lex_round(&mut tokens) {
                Err(e) => {
                    assert(lex_run(cs, ms, ts) == Err::<Seq<TokenView>, (int, int, Seq<char>)>((e.line as int, e.col as int, e.message@)));
                    return Err(e);
                },
                Ok(true) => {
                    assert(lex_run(cs, ms, ts) == Ok::<Seq<TokenView>, (int, int, Seq<char>)>(finish(lx.model(), tokens_view(tokens@))));
                    break;
                },
                Ok(false) => {
                    assert(lex_run(cs, ms, ts) == lex_run(cs, lx.model(), tokens_view(tokens@)));
                },
            }
        }
        lx.finish_tokens(&mut tokens);
        Ok(tokens)
    }
}

} // verus!
