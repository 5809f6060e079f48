//! The nesting of `Indent` and `Dedent` tokens: every level that a line opens is
//! closed again, at a shallower line or at the end of the input.

use vstd::prelude::*;

use crate::lexer::token::{KindView, TokenKind, TokenView};
use crate::lexer::{
    adv, close_dedents, digit_run, finish, is_word_start, lex_char_spec, lex_item, lex_number_spec, lex_operator_spec,
    lex_run, lex_step, line_start, plain, pop_dedents, skip_comment_spec, skip_spaces, skip_ws, spec_tokenize, stack_wf,
    string_body, word_kind, word_run, initial_model, LexModel, LineStart, Step,
};

verus! {

/// What a token adds to the indentation depth: `Indent` one, `Dedent` minus one.
pub open spec fn indent_delta(t: TokenView) -> int {
    if t.kind == KindView::Plain(TokenKind::Indent) {
        1
    } else if t.kind == KindView::Plain(TokenKind::Dedent) {
        -1
    } else {
        0
    }
}

/// The number of `Indent` tokens of `ts` less the number of its `Dedent` tokens.
pub open spec fn indent_depth(ts: Seq<TokenView>) -> int
    decreases ts.len(),
{
    if ts.len() == 0 {
        0
    } else {
        indent_depth(ts.drop_last()) + indent_delta(ts.last())
    }
}

/// Whether no prefix of `ts` closes more levels than it opens.
pub open spec fn prefixes_balanced(ts: Seq<TokenView>) -> bool {
    forall|k: int| 0 <= k <= ts.len() ==> indent_depth(#[trigger] ts.take(k)) >= 0
}

/// Whether no token of `ts` is `Eof`.
pub open spec fn eof_free(ts: Seq<TokenView>) -> bool {
    forall|k: int| 0 <= k < ts.len() ==> (#[trigger] ts[k]).kind != KindView::Plain(TokenKind::Eof)
}

proof fn lemma_depth_push(ts: Seq<TokenView>, t: TokenView)
    ensures
        indent_depth(ts.push(t)) == indent_depth(ts) + indent_delta(t),
        prefixes_balanced(ts) && indent_depth(ts) + indent_delta(t) >= 0 ==> prefixes_balanced(ts.push(t)),
        eof_free(ts) && t.kind != KindView::Plain(TokenKind::Eof) ==> eof_free(ts.push(t)),
{
    let t2 = ts.push(t);
    assert(t2.drop_last() =~= ts);
    if prefixes_balanced(ts) && indent_depth(ts) + indent_delta(t) >= 0 {
        assert forall|k: int| 0 <= k <= t2.len() implies indent_depth(#[trigger] t2.take(k)) >= 0 by {
            if k <= ts.len() {
                assert(t2.take(k) =~= ts.take(k));
            } else {
                assert(t2.take(k) =~= t2);
            }
        }
    }
    if eof_free(ts) && t.kind != KindView::Plain(TokenKind::Eof) {
        assert forall|k: int| 0 <= k < t2.len() implies (#[trigger] t2[k]).kind != KindView::Plain(TokenKind::Eof) by {
            if k < ts.len() {
                assert(t2[k] == ts[k]);
            }
        }
    }
}

proof fn lemma_skip_ws_stack(cs: Seq<char>, m: LexModel)
    ensures
        skip_ws(cs, m).stack == m.stack,
    decreases cs.len() - m.pos,
{
    if 0 <= m.pos < cs.len() && (cs[m.pos] == ' ' || cs[m.pos] == '\t' || cs[m.pos] == '\r') {
        lemma_skip_ws_stack(cs, adv(cs, m));
    }
}

proof fn lemma_skip_spaces_stack(cs: Seq<char>, m: LexModel)
    ensures
        skip_spaces(cs, m).stack == m.stack,
        0 <= m.pos <= cs.len() ==> m.pos <= skip_spaces(cs, m).pos <= cs.len(),
    decreases cs.len() - m.pos,
{
    if 0 <= m.pos < cs.len() && cs[m.pos] == ' ' {
        lemma_skip_spaces_stack(cs, adv(cs, m));
    }
}

proof fn lemma_skip_comment_stack(cs: Seq<char>, m: LexModel)
    ensures
        skip_comment_spec(cs, m).stack == m.stack,
    decreases cs.len() - m.pos,
{
    if 0 <= m.pos < cs.len() && cs[m.pos] != '\n' {
        lemma_skip_comment_stack(cs, adv(cs, m));
    }
}

proof fn lemma_digit_run_stack(cs: Seq<char>, m: LexModel)
    ensures
        digit_run(cs, m).stack == m.stack,
    decreases cs.len() - m.pos,
{
    if 0 <= m.pos < cs.len() && crate::lexer::is_digit(cs[m.pos]) {
        lemma_digit_run_stack(cs, adv(cs, m));
    }
}

proof fn lemma_word_run_stack(cs: Seq<char>, m: LexModel)
    ensures
        word_run(cs, m).stack == m.stack,
    decreases cs.len() - m.pos,
{
    if 0 <= m.pos < cs.len() && crate::lexer::is_word_char(cs[m.pos]) {
        lemma_word_run_stack(cs, adv(cs, m));
    }
}

proof fn lemma_string_body_stack(cs: Seq<char>, m: LexModel, acc: Seq<char>)
    ensures
        string_body(cs, m, acc) matches Ok((m2, _)) ==> m2.stack == m.stack,
    decreases cs.len() - m.pos,
{
    if !(!(0 <= m.pos < cs.len()) || cs[m.pos] == '\n') && cs[m.pos] != '"' {
        if cs[m.pos] == '\\' {
            let m1 = adv(cs, m);
            if m1.pos < cs.len() {
                let m2 = adv(cs, m1);
                if crate::lexer::string_escape(cs[m1.pos]) is Some {
                    lemma_string_body_stack(cs, m2, acc.push(crate::lexer::string_escape(cs[m1.pos])->0));
                }
            }
        } else {
            lemma_string_body_stack(cs, adv(cs, m), acc.push(cs[m.pos]));
        }
    }
}

proof fn lemma_number_stack(cs: Seq<char>, m: LexModel)
    ensures
        lex_number_spec(cs, m) matches Ok((m2, k)) ==> m2.stack == m.stack && k != KindView::Plain(TokenKind::Indent)
            && k != KindView::Plain(TokenKind::Dedent),
{
    lemma_digit_run_stack(cs, m);
    let m1 = digit_run(cs, m);
    lemma_digit_run_stack(cs, adv(cs, m1));
}

/// The character of a lexed character literal.
spec fn char_of(r: Result<(LexModel, char), (int, int, Seq<char>)>) -> char {
    match r {
        Ok((_, c)) => c,
        Err(_) => ' ',
    }
}

proof fn lemma_char_stack(cs: Seq<char>, m: LexModel)
    ensures
        lex_char_spec(cs, m) matches Ok((m2, _)) ==> m2.stack == m.stack,
{
}

proof fn lemma_operator_stack(cs: Seq<char>, m: LexModel)
    requires
        0 <= m.pos < cs.len(),
    ensures
        lex_operator_spec(cs, m) matches Ok((m2, k)) ==> m2.stack == m.stack && k != TokenKind::Indent && k != TokenKind::Dedent,
{
}

proof fn lemma_word_kind(s: Seq<char>)
    ensures
        word_kind(s) != KindView::Plain(TokenKind::Indent),
        word_kind(s) != KindView::Plain(TokenKind::Dedent),
{
}

/// Each popped level gives one `Dedent`; the bottom level 0 is never popped.
proof fn lemma_pop_dedents(stack: Seq<usize>, width: int, toks: Seq<TokenView>, line: int, col: int)
    requires
        stack_wf(stack),
        width >= 0,
        indent_depth(toks) == stack.len() - 1,
        prefixes_balanced(toks),
        eof_free(toks),
    ensures
        ({
            let (st, ts) = pop_dedents(stack, width, toks, line, col);
            &&& stack_wf(st)
            &&& st.len() <= stack.len()
            &&& indent_depth(ts) == indent_depth(toks) - (stack.len() - st.len())
            &&& prefixes_balanced(ts)
            &&& eof_free(ts)
        }),
    decreases stack.len(),
{
    if stack.len() > 0 && stack.last() > width {
        let t2 = toks.push(plain(TokenKind::Dedent, line, col));
        lemma_depth_push(toks, plain(TokenKind::Dedent, line, col));
        assert(stack.len() > 1) by {
            if stack.len() == 1 {
                assert(stack.last() == stack[0]);
            }
        }
        let s2 = stack.drop_last();
        assert(stack_wf(s2)) by {
            assert(s2[0] == stack[0]);
            assert forall|i: int, j: int| 0 <= i < j < s2.len() implies s2[i] < s2[j] by {
                assert(s2[i] == stack[i] && s2[j] == stack[j]);
            }
        }
        lemma_pop_dedents(s2, width, t2, line, col);
    }
}

/// The state of the nesting invariant: a well-formed stack, and one open `Indent`
/// for each level above the bottom.
pub open spec fn nesting_ok(m: LexModel, toks: Seq<TokenView>) -> bool {
    &&& stack_wf(m.stack)
    &&& indent_depth(toks) == m.stack.len() - 1
    &&& prefixes_balanced(toks)
    &&& eof_free(toks)
}

/// The invariant after a round of the lexing loop, where it goes on.
pub open spec fn step_nesting(st: Step) -> bool {
    match st {
        Step::Next(m2, t2) => nesting_ok(m2, t2),
        Step::Stop(m2, t2) => nesting_ok(m2, t2),
        Step::Fail(_, _, _) => true,
    }
}

proof fn lemma_line_start(cs: Seq<char>, m: LexModel, toks: Seq<TokenView>)
    requires
        nesting_ok(m, toks),
        0 <= m.pos <= cs.len(),
        cs.len() <= usize::MAX,
    ensures
        match line_start(cs, m, toks) {
            LineStart::Retry(m2, t2) => nesting_ok(m2, t2),
            LineStart::Proceed(m2, t2) => nesting_ok(m2, t2),
            LineStart::Fail(_, _, _) => true,
        },
{
    lemma_skip_spaces_stack(cs, m);
    let m1 = skip_spaces(cs, m);
    let width = m1.pos - m.pos;
    let p = crate::lexer::peek_at_spec(cs, m1.pos);
    if p == Some('\n') {
    } else if p == Some('#') {
        lemma_skip_comment_stack(cs, m1);
    } else if p is Some && p != Some('\t') && width % 4 == 0 {
        let cur = m1.stack.last();
        if width > cur {
            let st = m1.stack.push(width as usize);
            lemma_depth_push(toks, plain(TokenKind::Indent, m.line, width + 1));
            assert(stack_wf(st)) by {
                assert(st[0] == m1.stack[0]);
                assert forall|i: int, j: int| 0 <= i < j < st.len() implies st[i] < st[j] by {
                    if j == st.len() - 1 {
                        if i < m1.stack.len() - 1 {
                            assert(m1.stack[i] < m1.stack[m1.stack.len() - 1]);
                        }
                    } else {
                        assert(st[i] == m1.stack[i] && st[j] == m1.stack[j]);
                    }
                }
            }
        } else if width < cur {
            lemma_pop_dedents(m1.stack, width, toks, m.line, width + 1);
        }
    }
}

proof fn lemma_lex_item(cs: Seq<char>, m: LexModel, toks: Seq<TokenView>)
    requires
        nesting_ok(m, toks),
    ensures
        step_nesting(lex_item(cs, m, toks)),
{
    lemma_skip_ws_stack(cs, m);
    let m1 = skip_ws(cs, m);
    let line = m1.line;
    let col = m1.col;
    if !(0 <= m1.pos < cs.len()) {
        assert(nesting_ok(m1, toks));
        assert(lex_item(cs, m, toks) == Step::Stop(m1, toks));
    } else {
        let c = cs[m1.pos];
        if c == '#' {
            lemma_skip_comment_stack(cs, m1);
            assert(lex_item(cs, m, toks) == Step::Next(skip_comment_spec(cs, m1), toks));
            assert(nesting_ok(skip_comment_spec(cs, m1), toks));
        } else if c == '\n' {
            lemma_depth_push(toks, plain(TokenKind::Newline, line, col));
            assert(adv(cs, m1).stack == m1.stack);
            assert(nesting_ok(adv(cs, m1), toks));
            assert(nesting_ok(LexModel { at_line_start: true, ..adv(cs, m1) }, toks.push(plain(TokenKind::Newline, line, col))));
        } else if crate::lexer::is_digit(c) {
            lemma_number_stack(cs, m1);
            if let Ok((m2, k)) = lex_number_spec(cs, m1) {
                lemma_depth_push(toks, TokenView { kind: k, line, col });
                assert(lex_item(cs, m, toks) == Step::Next(m2, toks.push(TokenView { kind: k, line, col })));
                assert(nesting_ok(m2, toks.push(TokenView { kind: k, line, col })));
            }
        } else if c == '"' {
            lemma_string_body_stack(cs, adv(cs, m1), Seq::empty());
            if let Ok((m2, s)) = string_body(cs, adv(cs, m1), Seq::empty()) {
                lemma_depth_push(toks, TokenView { kind: KindView::Str(s), line, col });
                assert(lex_item(cs, m, toks) == Step::Next(m2, toks.push(TokenView { kind: KindView::Str(s), line, col })));
                assert(nesting_ok(m2, toks.push(TokenView { kind: KindView::Str(s), line, col })));
            }
        } else if c == '\'' {
            lemma_char_stack(cs, m1);
            if let Ok((m2, ch)) = lex_char_spec(cs, m1) {
                assert(ch == char_of(lex_char_spec(cs, m1)));
                lemma_depth_push(toks, plain(TokenKind::CharLit(ch), line, col));
                assert(lex_item(cs, m, toks) == Step::Next(m2, toks.push(plain(TokenKind::CharLit(ch), line, col))));
                assert(step_nesting(Step::Next(m2, toks.push(plain(TokenKind::CharLit(ch), line, col)))));
            }
        } else if is_word_start(c) {
            lemma_word_run_stack(cs, m1);
            let m2 = word_run(cs, m1);
            lemma_word_kind(cs.subrange(m1.pos, m2.pos));
            lemma_depth_push(toks, TokenView { kind: word_kind(cs.subrange(m1.pos, m2.pos)), line, col });
            assert(lex_item(cs, m, toks) == Step::Next(m2, toks.push(TokenView { kind: word_kind(cs.subrange(m1.pos, m2.pos)), line, col })));
            assert(nesting_ok(m2, toks.push(TokenView { kind: word_kind(cs.subrange(m1.pos, m2.pos)), line, col })));
        } else {
            lemma_operator_stack(cs, m1);
            if let Ok((m2, k)) = lex_operator_spec(cs, m1) {
                lemma_depth_push(toks, plain(k, line, col));
                assert(lex_item(cs, m, toks) == Step::Next(m2, toks.push(plain(k, line, col))));
                assert(nesting_ok(m2, toks.push(plain(k, line, col))));
            }
        }
    }
}

proof fn lemma_close_dedents(n: int, toks: Seq<TokenView>, line: int, col: int)
    requires
        n >= 1,
        indent_depth(toks) >= n - 1,
        prefixes_balanced(toks),
        eof_free(toks),
    ensures
        indent_depth(close_dedents(n, toks, line, col)) == indent_depth(toks) - (n - 1),
        prefixes_balanced(close_dedents(n, toks, line, col)),
        eof_free(close_dedents(n, toks, line, col)),
    decreases n,
{
    if n > 1 {
        lemma_depth_push(toks, plain(TokenKind::Dedent, line, col));
        lemma_close_dedents(n - 1, toks.push(plain(TokenKind::Dedent, line, col)), line, col);
    }
}

proof fn lemma_finish(m: LexModel, toks: Seq<TokenView>)
    requires
        nesting_ok(m, toks),
    ensures
        indent_depth(finish(m, toks)) == 0,
        prefixes_balanced(finish(m, toks)),
        eof_free(finish(m, toks).drop_last()),
{
    let t1 = if toks.len() > 0 && toks.last().kind != KindView::Plain(TokenKind::Newline) {
        toks.push(plain(TokenKind::Newline, m.line, m.col))
    } else {
        toks
    };
    lemma_depth_push(toks, plain(TokenKind::Newline, m.line, m.col));
    lemma_close_dedents(m.stack.len() as int, t1, m.line, m.col);
    let t2 = close_dedents(m.stack.len() as int, t1, m.line, m.col);
    lemma_depth_push(t2, plain(TokenKind::Eof, m.line, m.col));
    assert(t2.push(plain(TokenKind::Eof, m.line, m.col)).drop_last() =~= t2);
}

proof fn lemma_lex_run(cs: Seq<char>, m: LexModel, toks: Seq<TokenView>)
    requires
        nesting_ok(m, toks),
        0 <= m.pos <= cs.len(),
        cs.len() <= usize::MAX,
    ensures
        lex_run(cs, m, toks) matches Ok(t) ==> indent_depth(t) == 0 && prefixes_balanced(t) && eof_free(t.drop_last()),
    decreases cs.len() - m.pos,
{
    let st = lex_step(cs, m, toks);
    if m.at_line_start && m.depth == 0 {
        lemma_line_start(cs, m, toks);
        if let LineStart::Proceed(m2, t2) = line_start(cs, m, toks) {
            lemma_lex_item(cs, m2, t2);
        }
    } else {
        lemma_lex_item(cs, m, toks);
    }
    match st {
        Step::Stop(m2, t2) => {
            lemma_finish(m2, t2);
        },
        Step::Next(m2, t2) => {
            if m.pos < m2.pos <= cs.len() {
                lemma_lex_run(cs, m2, t2);
            }
        },
        Step::Fail(_, _, _) => {},
    }
}

/// Indentation tokens balance: the tokens of a source text that lexes hold as many
/// `Dedent` tokens as `Indent` tokens, and no prefix of them closes a level that it
/// did not open.
pub proof fn lemma_indents_balance(src: Seq<char>)
    requires
        src.len() <= usize::MAX,
    ensures
        spec_tokenize(src) matches Ok(t) ==> indent_depth(t) == 0 && prefixes_balanced(t),
{
    lemma_start_nesting();
    lemma_lex_run(src, initial_model(), Seq::empty());
}

/// `Eof` ends the tokens of a source text that lexes, and comes nowhere else.
pub proof fn lemma_eof_only_last(src: Seq<char>)
    requires
        src.len() <= usize::MAX,
    ensures
        spec_tokenize(src) matches Ok(t) ==> t.len() > 0 && t.last().kind == KindView::Plain(TokenKind::Eof)
            && eof_free(t.drop_last()),
{
    lemma_start_nesting();
    lemma_lex_run(src, initial_model(), Seq::empty());
    crate::lexer::lemma_lex_ends_with_eof(src, initial_model(), Seq::empty());
}

proof fn lemma_start_nesting()
    ensures
        nesting_ok(initial_model(), Seq::empty()),
{
    let e = Seq::<TokenView>::empty();
    assert(stack_wf(initial_model().stack));
    assert(indent_depth(e) == 0);
    assert forall|k: int| 0 <= k <= e.len() implies indent_depth(#[trigger] e.take(k)) >= 0 by {
        assert(e.take(k) =~= e);
    }
}

} // verus!
