//! Assignment is a statement: in a parsed program every assignment stands as an
//! expression statement of its own and assigns to a variable, a field or an element.

use vstd::prelude::*;

use crate::lexer::token::{TokenKind, TokenView};
use crate::parser::ast::{is_lvalue_spec, ExprV, FuncDeclV, StmtV};
use crate::parser::grammar::{
    adv_pos, assign_op, binary_op, binary_rest_spec, block_body_spec, class_body_spec, elif_spec, expect_spec,
    fwd, inb, is_kind, kind_at, lemma_parse_block_unfold, lemma_parse_class_unfold, lemma_parse_func_unfold,
    lemma_parse_stmt_unfold, list_rest_spec, literal, match_spec, parse_args_spec, parse_assign_spec, parse_binary_spec,
    parse_block_body, parse_block_spec, parse_class_body, parse_class_spec, parse_expr_spec, parse_for_spec,
    parse_func_body, parse_func_spec, parse_if_spec, parse_list_spec, parse_postfix_spec, parse_primary_spec,
    parse_return_spec, parse_stmt_body, parse_stmt_spec, parse_unary_spec, parse_var_spec, parse_while_spec,
    postfix_rest_spec, program_rest_spec, skip_nl, spec_parse_program, toks_ok, unary_op,
};
use crate::parser::targets::{
    block_assigns_ok, branches_assigns_ok, exprs_no_assign, lemma_assigns_ok_targets_ok, methods_assigns_ok, no_assign,
    program_targets_ok, statement_expr_ok, stmt_assigns_ok,
};

verus! {

// ---------------------------------------------------------------------------
// The sequence forms of the predicates
// ---------------------------------------------------------------------------

proof fn lemma_exprs_all(s: Seq<ExprV>, i: nat)
    ensures
        exprs_no_assign(s, i) <==> (forall|k: int| i <= k < s.len() ==> no_assign(#[trigger] s[k])),
    decreases s.len() - i,
{
    if i < s.len() {
        lemma_exprs_all(s, i + 1);
    }
}

proof fn lemma_exprs_push(s: Seq<ExprV>, e: ExprV)
    requires
        exprs_no_assign(s, 0),
        no_assign(e),
    ensures
        exprs_no_assign(s.push(e), 0),
{
    lemma_exprs_all(s, 0);
    lemma_exprs_all(s.push(e), 0);
    assert forall|k: int| 0 <= k < s.push(e).len() implies no_assign(#[trigger] s.push(e)[k]) by {
        if k < s.len() {
            assert(s.push(e)[k] == s[k]);
        }
    }
}

proof fn lemma_block_all(s: Seq<StmtV>, i: nat)
    ensures
        block_assigns_ok(s, i) <==> (forall|k: int| i <= k < s.len() ==> stmt_assigns_ok(#[trigger] s[k])),
    decreases s.len() - i,
{
    if i < s.len() {
        lemma_block_all(s, i + 1);
    }
}

proof fn lemma_block_push(s: Seq<StmtV>, st: StmtV)
    requires
        block_assigns_ok(s, 0),
        stmt_assigns_ok(st),
    ensures
        block_assigns_ok(s.push(st), 0),
{
    lemma_block_all(s, 0);
    lemma_block_all(s.push(st), 0);
    assert forall|k: int| 0 <= k < s.push(st).len() implies stmt_assigns_ok(#[trigger] s.push(st)[k]) by {
        if k < s.len() {
            assert(s.push(st)[k] == s[k]);
        }
    }
}

proof fn lemma_branches_all(s: Seq<(ExprV, Seq<StmtV>)>, i: nat)
    ensures
        branches_assigns_ok(s, i) <==> (forall|k: int|
            i <= k < s.len() ==> no_assign(#[trigger] s[k].0) && block_assigns_ok(s[k].1, 0)),
    decreases s.len() - i,
{
    if i < s.len() {
        lemma_branches_all(s, i + 1);
        if branches_assigns_ok(s, i + 1) && no_assign(s[i as int].0) && block_assigns_ok(s[i as int].1, 0) {
            assert forall|k: int| i <= k < s.len() implies no_assign(#[trigger] s[k].0) && block_assigns_ok(s[k].1, 0) by {
                if k > i {
                    assert(i + 1 <= k);
                }
            }
        }
    }
}

proof fn lemma_branches_push(s: Seq<(ExprV, Seq<StmtV>)>, b: (ExprV, Seq<StmtV>))
    requires
        branches_assigns_ok(s, 0),
        no_assign(b.0),
        block_assigns_ok(b.1, 0),
    ensures
        branches_assigns_ok(s.push(b), 0),
{
    lemma_branches_all(s, 0);
    lemma_branches_all(s.push(b), 0);
    assert forall|k: int| 0 <= k < s.push(b).len() implies no_assign(#[trigger] s.push(b)[k].0) && block_assigns_ok(
        s.push(b)[k].1,
        0,
    ) by {
        if k < s.len() {
            assert(s.push(b)[k] == s[k]);
        }
    }
}

proof fn lemma_methods_all(s: Seq<FuncDeclV>, i: nat)
    ensures
        methods_assigns_ok(s, i) <==> (forall|k: int| i <= k < s.len() ==> block_assigns_ok(#[trigger] s[k].body, 0)),
    decreases s.len() - i,
{
    if i < s.len() {
        lemma_methods_all(s, i + 1);
    }
}

proof fn lemma_methods_push(s: Seq<FuncDeclV>, f: FuncDeclV)
    requires
        methods_assigns_ok(s, 0),
        block_assigns_ok(f.body, 0),
    ensures
        methods_assigns_ok(s.push(f), 0),
{
    lemma_methods_all(s, 0);
    lemma_methods_all(s.push(f), 0);
    assert forall|k: int| 0 <= k < s.push(f).len() implies block_assigns_ok(#[trigger] s.push(f)[k].body, 0) by {
        if k < s.len() {
            assert(s.push(f)[k] == s[k]);
        }
    }
}

/// In a stream that ends with `Eof`, the position after a token that is not `Eof`
/// lies in the stream.
proof fn lemma_next_in(toks: Seq<TokenView>, pos: int)
    requires
        toks_ok(toks),
        0 <= pos < toks.len(),
        !is_kind(toks, pos, TokenKind::Eof),
    ensures
        pos + 1 < toks.len(),
        adv_pos(toks, pos) == pos + 1,
{
}

// ---------------------------------------------------------------------------
// Expressions
// ---------------------------------------------------------------------------

proof fn lemma_expr(toks: Seq<TokenView>, pos: int)
    requires
        toks_ok(toks),
        0 <= pos < toks.len(),
    ensures
        parse_expr_spec(toks, pos) matches Ok((e, _)) ==> no_assign(e),
    decreases toks.len() - pos, 30int,
{
    lemma_binary(toks, pos, 0);
}

proof fn lemma_binary(toks: Seq<TokenView>, pos: int, level: int)
    requires
        toks_ok(toks),
        0 <= pos < toks.len(),
        0 <= level <= 5,
    ensures
        parse_binary_spec(toks, pos, level) matches Ok((e, _)) ==> no_assign(e),
    decreases toks.len() - pos, 20 - 2 * level,
{
    let first = if level < 5 { parse_binary_spec(toks, pos, level + 1) } else { parse_unary_spec(toks, pos) };
    if level < 5 {
        lemma_binary(toks, pos, level + 1);
    } else {
        lemma_unary(toks, pos);
    }
    if let Ok((lhs, p1)) = first {
        if fwd(toks, pos, p1) {
            lemma_binary_rest(toks, p1, level, lhs);
        }
    }
}

proof fn lemma_binary_rest(toks: Seq<TokenView>, pos: int, level: int, lhs: ExprV)
    requires
        toks_ok(toks),
        0 <= pos < toks.len(),
        0 <= level <= 5,
        no_assign(lhs),
    ensures
        binary_rest_spec(toks, pos, level, lhs) matches Ok((e, _)) ==> no_assign(e),
    decreases toks.len() - pos, 19 - 2 * level,
{
    if let Some(op) = binary_op(level, kind_at(toks, pos)) {
        let line = toks[pos].line;
        let p1 = adv_pos(toks, pos);
        let operand = if level < 5 { parse_binary_spec(toks, p1, level + 1) } else { parse_unary_spec(toks, p1) };
        if level < 5 {
            lemma_binary(toks, p1, level + 1);
        } else {
            lemma_unary(toks, p1);
        }
        if let Ok((rhs, p2)) = operand {
            if fwd(toks, pos, p2) {
                lemma_binary_rest(toks, p2, level, ExprV::Binary { op, lhs: Box::new(lhs), rhs: Box::new(rhs), line });
            }
        }
    }
}

proof fn lemma_unary(toks: Seq<TokenView>, pos: int)
    requires
        toks_ok(toks),
        0 <= pos < toks.len(),
    ensures
        parse_unary_spec(toks, pos) matches Ok((e, _)) ==> no_assign(e),
    decreases toks.len() - pos, 8int,
{
    if unary_op(kind_at(toks, pos)) is Some {
        lemma_next_in(toks, pos);
        lemma_unary(toks, pos + 1);
    } else {
        lemma_postfix(toks, pos);
    }
}

proof fn lemma_postfix(toks: Seq<TokenView>, pos: int)
    requires
        toks_ok(toks),
        0 <= pos < toks.len(),
    ensures
        parse_postfix_spec(toks, pos) matches Ok((e, _)) ==> no_assign(e),
    decreases toks.len() - pos, 7int,
{
    lemma_primary(toks, pos);
    if let Ok((e, p1)) = parse_primary_spec(toks, pos) {
        if fwd(toks, pos, p1) {
            lemma_postfix_rest(toks, p1, e);
        }
    }
}

proof fn lemma_postfix_rest(toks: Seq<TokenView>, pos: int, e: ExprV)
    requires
        toks_ok(toks),
        0 <= pos < toks.len(),
        no_assign(e),
    ensures
        postfix_rest_spec(toks, pos, e) matches Ok((r, _)) ==> no_assign(r),
    decreases toks.len() - pos, 6int,
{
    let line = toks[pos].line;
    let p1 = adv_pos(toks, pos);
    if is_kind(toks, pos, TokenKind::Dot) {
        if let Ok((name, p2)) = crate::parser::grammar::expect_ident_spec(toks, p1, "멤버 이름"@) {
            if fwd(toks, pos, p2) {
                lemma_postfix_rest(toks, p2, ExprV::Member { object: Box::new(e), name, line });
            }
        }
    } else if is_kind(toks, pos, TokenKind::LParen) {
        lemma_next_in(toks, pos);
        lemma_args(toks, p1);
        if let Ok((args, p2)) = parse_args_spec(toks, p1) {
            if pos <= p2 < toks.len() {
                if let Ok(p3) = expect_spec(toks, p2, TokenKind::RParen) {
                    if fwd(toks, pos, p3) {
                        lemma_postfix_rest(toks, p3, ExprV::Call { callee: Box::new(e), args, line });
                    }
                }
            }
        }
    } else if is_kind(toks, pos, TokenKind::LBracket) {
        lemma_next_in(toks, pos);
        lemma_expr(toks, p1);
        if let Ok((index, p2)) = parse_expr_spec(toks, p1) {
            if fwd(toks, pos, p2) {
                if let Ok(p3) = expect_spec(toks, p2, TokenKind::RBracket) {
                    if fwd(toks, pos, p3) {
                        lemma_postfix_rest(toks, p3, ExprV::Index { object: Box::new(e), index: Box::new(index), line });
                    }
                }
            }
        }
    } else if is_kind(toks, pos, TokenKind::As) {
        if let Ok((ty, p2)) = crate::parser::grammar::parse_type_spec(toks, p1) {
            if fwd(toks, pos, p2) {
                lemma_postfix_rest(toks, p2, ExprV::Cast { expr: Box::new(e), ty, line });
            }
        }
    }
}

proof fn lemma_literal(k: crate::lexer::token::KindView)
    ensures
        literal(k) matches Some(e) ==> no_assign(e),
{
}

proof fn lemma_skip_nl(toks: Seq<TokenView>, pos: int)
    requires
        0 <= pos < toks.len(),
    ensures
        pos <= skip_nl(toks, pos) < toks.len(),
    decreases toks.len() - pos,
{
    if is_kind(toks, pos, TokenKind::Newline) && pos + 1 < toks.len() {
        lemma_skip_nl(toks, pos + 1);
    }
}

proof fn lemma_primary(toks: Seq<TokenView>, pos: int)
    requires
        toks_ok(toks),
        0 <= pos < toks.len(),
    ensures
        parse_primary_spec(toks, pos) matches Ok((e, _)) ==> no_assign(e),
    decreases toks.len() - pos, 5int,
{
    lemma_literal(kind_at(toks, pos));
    if literal(kind_at(toks, pos)) is None {
        if is_kind(toks, pos, TokenKind::New) {
            lemma_next_in(toks, pos);
            if let Ok((class_name, p1)) = crate::parser::grammar::expect_ident_spec(toks, pos + 1, "클래스 이름"@) {
                if let Ok(p2) = expect_spec(toks, p1, TokenKind::LParen) {
                    if fwd(toks, pos, p2) {
                        lemma_args(toks, p2);
                    }
                }
            }
            assert(parse_primary_spec(toks, pos) matches Ok((e, _)) ==> no_assign(e));
        } else if is_kind(toks, pos, TokenKind::LParen) {
            lemma_next_in(toks, pos);
            lemma_expr(toks, pos + 1);
            assert(parse_primary_spec(toks, pos) matches Ok((e, _)) ==> no_assign(e));
        } else if is_kind(toks, pos, TokenKind::LBracket) {
            lemma_next_in(toks, pos);
            if !is_kind(toks, pos + 1, TokenKind::RBracket) {
                lemma_list(toks, pos + 1);
                assert(parse_primary_spec(toks, pos) matches Ok((e, _)) ==> no_assign(e));
            } else {
                assert(exprs_no_assign(Seq::<ExprV>::empty(), 0));
                assert(parse_primary_spec(toks, pos) matches Ok((e, _)) ==> no_assign(e));
            }
        }
    }
}

proof fn lemma_args(toks: Seq<TokenView>, pos: int)
    requires
        toks_ok(toks),
        0 <= pos < toks.len(),
    ensures
        parse_args_spec(toks, pos) matches Ok((es, _)) ==> exprs_no_assign(es, 0),
    decreases toks.len() - pos, 40int,
{
    if !is_kind(toks, pos, TokenKind::RParen) {
        lemma_list(toks, pos);
    }
}

proof fn lemma_list(toks: Seq<TokenView>, pos: int)
    requires
        toks_ok(toks),
        0 <= pos < toks.len(),
    ensures
        parse_list_spec(toks, pos) matches Ok((es, _)) ==> exprs_no_assign(es, 0),
    decreases toks.len() - pos, 39int,
{
    lemma_expr(toks, pos);
    if let Ok((e, p1)) = parse_expr_spec(toks, pos) {
        if fwd(toks, pos, p1) {
            lemma_exprs_push(Seq::empty(), e);
            assert(Seq::<ExprV>::empty().push(e) == seq![e]);
            lemma_list_rest(toks, p1, seq![e]);
        }
    }
}

proof fn lemma_list_rest(toks: Seq<TokenView>, pos: int, acc: Seq<ExprV>)
    requires
        toks_ok(toks),
        0 <= pos < toks.len(),
        exprs_no_assign(acc, 0),
    ensures
        list_rest_spec(toks, pos, acc) matches Ok((es, _)) ==> exprs_no_assign(es, 0),
    decreases toks.len() - pos, 38int,
{
    if is_kind(toks, pos, TokenKind::Comma) {
        lemma_next_in(toks, pos);
        lemma_expr(toks, pos + 1);
        if let Ok((e, p1)) = parse_expr_spec(toks, pos + 1) {
            if fwd(toks, pos, p1) {
                lemma_exprs_push(acc, e);
                lemma_list_rest(toks, p1, acc.push(e));
            }
        }
    }
}

/// The expression of an expression statement: an assignment's target is a variable,
/// a field or an element, and no other assignment stands within it.
proof fn lemma_assign(toks: Seq<TokenView>, pos: int)
    requires
        toks_ok(toks),
        0 <= pos < toks.len(),
    ensures
        parse_assign_spec(toks, pos) matches Ok((e, _)) ==> statement_expr_ok(e),
{
    lemma_binary(toks, pos, 0);
    if let Ok((lhs, p1)) = parse_binary_spec(toks, pos, 0) {
        if fwd(toks, pos, p1) && assign_op(kind_at(toks, p1)) is Some {
            let p2 = adv_pos(toks, p1);
            if !is_kind(toks, p1, TokenKind::Eof) {
                lemma_next_in(toks, p1);
            }
            lemma_binary(toks, p2, 0);
        }
    }
}

// ---------------------------------------------------------------------------
// Statements
// ---------------------------------------------------------------------------

proof fn lemma_stmt(toks: Seq<TokenView>, pos: int)
    requires
        toks_ok(toks),
        0 <= pos < toks.len(),
    ensures
        parse_stmt_spec(toks, pos) matches Ok((s, _)) ==> stmt_assigns_ok(s),
    decreases toks.len() - pos, 60int,
{
    lemma_parse_stmt_unfold(toks, pos);
    lemma_stmt_body(toks, pos);
}

proof fn lemma_stmt_body(toks: Seq<TokenView>, pos: int)
    requires
        toks_ok(toks),
        0 <= pos < toks.len(),
    ensures
        parse_stmt_body(toks, pos) matches Ok((s, _)) ==> stmt_assigns_ok(s),
    decreases toks.len() - pos, 59int,
{
    if is_kind(toks, pos, TokenKind::Class) {
        lemma_class(toks, pos);
    } else if is_kind(toks, pos, TokenKind::Fn) || ((is_kind(toks, pos, TokenKind::Pub) || is_kind(toks, pos, TokenKind::Priv))
        && pos + 1 < toks.len() && is_kind(toks, pos + 1, TokenKind::Fn)) {
        lemma_func(toks, pos, false);
    } else if is_kind(toks, pos, TokenKind::Let) || is_kind(toks, pos, TokenKind::Var) || is_kind(toks, pos, TokenKind::Const) {
        lemma_var(toks, pos);
    } else if is_kind(toks, pos, TokenKind::If) {
        lemma_if(toks, pos);
    } else if is_kind(toks, pos, TokenKind::While) {
        lemma_while(toks, pos);
    } else if is_kind(toks, pos, TokenKind::For) {
        lemma_for(toks, pos);
    } else if is_kind(toks, pos, TokenKind::Return) {
        lemma_return(toks, pos);
    } else if !(is_kind(toks, pos, TokenKind::Break) || is_kind(toks, pos, TokenKind::Continue)) {
        lemma_assign(toks, pos);
    }
}

proof fn lemma_block(toks: Seq<TokenView>, pos: int)
    requires
        toks_ok(toks),
        0 <= pos < toks.len(),
    ensures
        parse_block_spec(toks, pos) matches Ok((ss, _)) ==> block_assigns_ok(ss, 0),
    decreases toks.len() - pos, 55int,
{
    lemma_parse_block_unfold(toks, pos);
    if let Ok(p1) = expect_spec(toks, pos, TokenKind::Newline) {
        if let Ok(p2) = expect_spec(toks, p1, TokenKind::Indent) {
            if fwd(toks, pos, p2) {
                lemma_block_body(toks, p2, Seq::empty());
            }
        }
    }
}

proof fn lemma_block_body(toks: Seq<TokenView>, pos: int, acc: Seq<StmtV>)
    requires
        toks_ok(toks),
        0 <= pos < toks.len(),
        block_assigns_ok(acc, 0),
    ensures
        block_body_spec(toks, pos, acc) matches Ok((ss, _)) ==> block_assigns_ok(ss, 0),
    decreases toks.len() - pos, 70int,
{
    if !(is_kind(toks, pos, TokenKind::Dedent) || is_kind(toks, pos, TokenKind::Eof)) {
        lemma_stmt(toks, pos);
        if let Ok((st, p1)) = parse_stmt_spec(toks, pos) {
            if fwd(toks, pos, p1) {
                lemma_block_push(acc, st);
                lemma_block_body(toks, p1, acc.push(st));
            }
        }
    }
}

proof fn lemma_func(toks: Seq<TokenView>, pos: int, allow_self: bool)
    requires
        toks_ok(toks),
        0 <= pos < toks.len(),
    ensures
        parse_func_spec(toks, pos, allow_self) matches Ok((f, _)) ==> block_assigns_ok(f.body, 0),
    decreases toks.len() - pos, 50int,
{
    lemma_parse_func_unfold(toks, pos, allow_self);
    if let Ok(p1) = expect_spec(toks, pos, TokenKind::Fn) {
        if let Ok((name, p2)) = crate::parser::grammar::expect_ident_spec(toks, p1, "함수 이름"@) {
            if let Ok(p3) = expect_spec(toks, p2, TokenKind::LParen) {
                if inb(toks, pos, p3) {
                    let head: Result<(bool, Seq<crate::parser::ast::ParamV>, int), crate::parser::grammar::ParseErrorV> =
                        if is_kind(toks, p3, TokenKind::RParen) {
                            Ok((false, Seq::empty(), p3))
                        } else if allow_self && is_kind(toks, p3, TokenKind::SelfKw) {
                            let q = adv_pos(toks, p3);
                            if is_kind(toks, q, TokenKind::Comma) {
                                match crate::parser::grammar::parse_params_spec(toks, adv_pos(toks, q)) {
                                    Err(e) => Err(e),
                                    Ok((ps, q2)) => Ok((true, ps, q2)),
                                }
                            } else {
                                Ok((true, Seq::empty(), q))
                            }
                        } else {
                            match crate::parser::grammar::parse_params_spec(toks, p3) {
                                Err(e) => Err(e),
                                Ok((ps, q2)) => Ok((false, ps, q2)),
                            }
                        };
                    if let Ok((has_self, params, p4)) = head {
                        if let Ok(p5) = expect_spec(toks, p4, TokenKind::RParen) {
                            let ret: Result<(Option<crate::parser::ast::TypeV>, int), crate::parser::grammar::ParseErrorV> =
                                if is_kind(toks, p5, TokenKind::Arrow) {
                                    match crate::parser::grammar::parse_type_spec(toks, adv_pos(toks, p5)) {
                                        Err(e) => Err(e),
                                        Ok((t, q)) => Ok((Some(t), q)),
                                    }
                                } else {
                                    Ok((None, p5))
                                };
                            if let Ok((ret_ty, p6)) = ret {
                                if let Ok(p7) = expect_spec(toks, p6, TokenKind::Colon) {
                                    if fwd(toks, pos, p7) {
                                        lemma_block(toks, p7);
                                    }
                                }
                            }
                        }
                    }
                }
            }
        }
    }
}

proof fn lemma_class(toks: Seq<TokenView>, pos: int)
    requires
        toks_ok(toks),
        0 <= pos < toks.len(),
    ensures
        parse_class_spec(toks, pos) matches Ok((c, _)) ==> methods_assigns_ok(c.methods, 0),
    decreases toks.len() - pos, 50int,
{
    lemma_parse_class_unfold(toks, pos);
    if let Ok(p1) = expect_spec(toks, pos, TokenKind::Class) {
        if let Ok((name, p2)) = crate::parser::grammar::expect_ident_spec(toks, p1, "클래스 이름"@) {
            let sup: Result<(Option<Seq<char>>, int), crate::parser::grammar::ParseErrorV> =
                if is_kind(toks, p2, TokenKind::LParen) {
                    match crate::parser::grammar::expect_ident_spec(toks, adv_pos(toks, p2), "상위 클래스 이름"@) {
                        Err(e) => Err(e),
                        Ok((s, q)) => match expect_spec(toks, q, TokenKind::RParen) {
                            Err(e) => Err(e),
                            Ok(q2) => Ok((Some(s), q2)),
                        },
                    }
                } else {
                    Ok((None, p2))
                };
            if let Ok((superclass, p3)) = sup {
                if let Ok(p4) = expect_spec(toks, p3, TokenKind::Colon) {
                    if let Ok(p5) = expect_spec(toks, p4, TokenKind::Newline) {
                        if let Ok(p6) = expect_spec(toks, p5, TokenKind::Indent) {
                            if fwd(toks, pos, p6) {
                                lemma_class_members(toks, p6, Seq::empty(), Seq::empty());
                            }
                        }
                    }
                }
            }
        }
    }
}

proof fn lemma_class_members(
    toks: Seq<TokenView>,
    pos: int,
    fields: Seq<crate::parser::ast::FieldDeclV>,
    methods: Seq<FuncDeclV>,
)
    requires
        toks_ok(toks),
        0 <= pos < toks.len(),
        methods_assigns_ok(methods, 0),
    ensures
        class_body_spec(toks, pos, fields, methods) matches Ok(((fs, ms), _)) ==> methods_assigns_ok(ms, 0),
    decreases toks.len() - pos, 58int,
{
    if !(is_kind(toks, pos, TokenKind::Dedent) || is_kind(toks, pos, TokenKind::Eof)) {
        let (is_pub, p1) = match_spec(toks, pos, TokenKind::Pub);
        let p2 = if is_pub { p1 } else { match_spec(toks, p1, TokenKind::Priv).1 };
        if inb(toks, pos, p2) {
            if is_kind(toks, p2, TokenKind::Fn) {
                lemma_func(toks, p2, true);
                if let Ok((f, p3)) = parse_func_spec(toks, p2, true) {
                    if fwd(toks, pos, p3) {
                        lemma_methods_push(methods, FuncDeclV { is_pub, ..f });
                        lemma_class_members(toks, p3, fields, methods.push(FuncDeclV { is_pub, ..f }));
                    }
                }
            } else {
                if let Ok((fd, p3)) = crate::parser::grammar::parse_field_spec(toks, p2, is_pub) {
                    if fwd(toks, pos, p3) {
                        lemma_class_members(toks, p3, fields.push(fd), methods);
                    }
                }
            }
        }
    }
}

proof fn lemma_var(toks: Seq<TokenView>, pos: int)
    requires
        toks_ok(toks),
        0 <= pos < toks.len(),
    ensures
        parse_var_spec(toks, pos) matches Ok((v, _)) ==> no_assign(v.value),
    decreases toks.len() - pos, 50int,
{
    if let Ok((name, p1)) = crate::parser::grammar::expect_ident_spec(toks, adv_pos(toks, pos), "변수 이름"@) {
        let ty: Result<(Option<crate::parser::ast::TypeV>, int), crate::parser::grammar::ParseErrorV> = if is_kind(toks, p1, TokenKind::Colon) {
            match crate::parser::grammar::parse_type_spec(toks, adv_pos(toks, p1)) {
                Err(e) => Err(e),
                Ok((t, q)) => Ok((Some(t), q)),
            }
        } else {
            Ok((None, p1))
        };
        if let Ok((ty, p2)) = ty {
            if let Ok(p3) = expect_spec(toks, p2, TokenKind::Assign) {
                if fwd(toks, pos, p3) {
                    lemma_expr(toks, p3);
                }
            }
        }
    }
}

proof fn lemma_if(toks: Seq<TokenView>, pos: int)
    requires
        toks_ok(toks),
        0 <= pos < toks.len(),
    ensures
        parse_if_spec(toks, pos) matches Ok((i, _)) ==> stmt_assigns_ok(StmtV::If(i)),
    decreases toks.len() - pos, 50int,
{
    if let Ok(p1) = expect_spec(toks, pos, TokenKind::If) {
        if fwd(toks, pos, p1) {
            lemma_expr(toks, p1);
            if let Ok((cond, p2)) = parse_expr_spec(toks, p1) {
                if inb(toks, pos, p2) {
                    if let Ok(p3) = expect_spec(toks, p2, TokenKind::Colon) {
                        if fwd(toks, pos, p3) {
                            lemma_block(toks, p3);
                            if let Ok((body, p4)) = parse_block_spec(toks, p3) {
                                if fwd(toks, pos, p4) {
                                    lemma_branches_push(Seq::empty(), (cond, body));
                                    assert(Seq::<(ExprV, Seq<StmtV>)>::empty().push((cond, body)) == seq![(cond, body)]);
                                    lemma_elif(toks, p4, seq![(cond, body)]);
                                    if let Ok((branches, p5)) = elif_spec(toks, p4, seq![(cond, body)]) {
                                        if inb(toks, pos, p5) && is_kind(toks, p5, TokenKind::Else) {
                                            if let Ok(p6) = expect_spec(toks, adv_pos(toks, p5), TokenKind::Colon) {
                                                if fwd(toks, pos, p6) {
                                                    lemma_block(toks, p6);
                                                }
                                            }
                                        }
                                    }
                                }
                            }
                        }
                    }
                }
            }
        }
    }
}

proof fn lemma_elif(toks: Seq<TokenView>, pos: int, acc: Seq<(ExprV, Seq<StmtV>)>)
    requires
        toks_ok(toks),
        0 <= pos < toks.len(),
        branches_assigns_ok(acc, 0),
    ensures
        elif_spec(toks, pos, acc) matches Ok((bs, _)) ==> branches_assigns_ok(bs, 0),
    decreases toks.len() - pos, 52int,
{
    if is_kind(toks, pos, TokenKind::Elif) {
        lemma_next_in(toks, pos);
        lemma_expr(toks, pos + 1);
        if let Ok((cond, p1)) = parse_expr_spec(toks, pos + 1) {
            if fwd(toks, pos, p1) {
                if let Ok(p2) = expect_spec(toks, p1, TokenKind::Colon) {
                    if fwd(toks, pos, p2) {
                        lemma_block(toks, p2);
                        if let Ok((body, p3)) = parse_block_spec(toks, p2) {
                            if fwd(toks, pos, p3) {
                                lemma_branches_push(acc, (cond, body));
                                lemma_elif(toks, p3, acc.push((cond, body)));
                            }
                        }
                    }
                }
            }
        }
    }
}

proof fn lemma_while(toks: Seq<TokenView>, pos: int)
    requires
        toks_ok(toks),
        0 <= pos < toks.len(),
    ensures
        parse_while_spec(toks, pos) matches Ok((w, _)) ==> stmt_assigns_ok(StmtV::While(w)),
    decreases toks.len() - pos, 50int,
{
    if let Ok(p1) = expect_spec(toks, pos, TokenKind::While) {
        if fwd(toks, pos, p1) {
            lemma_expr(toks, p1);
            if let Ok((cond, p2)) = parse_expr_spec(toks, p1) {
                if inb(toks, pos, p2) {
                    if let Ok(p3) = expect_spec(toks, p2, TokenKind::Colon) {
                        if fwd(toks, pos, p3) {
                            lemma_block(toks, p3);
                        }
                    }
                }
            }
        }
    }
}

proof fn lemma_for(toks: Seq<TokenView>, pos: int)
    requires
        toks_ok(toks),
        0 <= pos < toks.len(),
    ensures
        parse_for_spec(toks, pos) matches Ok((f, _)) ==> stmt_assigns_ok(StmtV::For(f)),
    decreases toks.len() - pos, 50int,
{
    if let Ok(p1) = expect_spec(toks, pos, TokenKind::For) {
        if let Ok((var_name, p2)) = crate::parser::grammar::expect_ident_spec(toks, p1, "반복 변수 이름"@) {
            if let Ok(p3) = expect_spec(toks, p2, TokenKind::In) {
                if fwd(toks, pos, p3) {
                    lemma_expr(toks, p3);
                    if let Ok((iter, p4)) = parse_expr_spec(toks, p3) {
                        if inb(toks, pos, p4) {
                            if let Ok(p5) = expect_spec(toks, p4, TokenKind::Colon) {
                                if fwd(toks, pos, p5) {
                                    lemma_block(toks, p5);
                                }
                            }
                        }
                    }
                }
            }
        }
    }
}

proof fn lemma_return(toks: Seq<TokenView>, pos: int)
    requires
        toks_ok(toks),
        0 <= pos < toks.len(),
    ensures
        parse_return_spec(toks, pos) matches Ok((s, _)) ==> stmt_assigns_ok(s),
    decreases toks.len() - pos, 50int,
{
    if let Ok(p1) = expect_spec(toks, pos, TokenKind::Return) {
        if fwd(toks, pos, p1) {
            lemma_expr(toks, p1);
        }
    }
}

proof fn lemma_program_rest(toks: Seq<TokenView>, pos: int, acc: Seq<StmtV>)
    requires
        toks_ok(toks),
        0 <= pos < toks.len(),
        block_assigns_ok(acc, 0),
    ensures
        program_rest_spec(toks, pos, acc) matches Ok(ss) ==> block_assigns_ok(ss, 0),
    decreases toks.len() - pos,
{
    if !is_kind(toks, pos, TokenKind::Eof) {
        lemma_stmt(toks, pos);
        if let Ok((st, p1)) = parse_stmt_spec(toks, pos) {
            if fwd(toks, pos, p1) {
                let p2 = skip_nl(toks, p1);
                if fwd(toks, pos, p2) {
                    lemma_block_push(acc, st);
                    lemma_program_rest(toks, p2, acc.push(st));
                }
            }
        }
    }
}

/// Assignment is a statement: in a program that parses, every assignment is the
/// whole expression of an expression statement (none stands inside another
/// expression, so none chains as in `a = b = 1`), and it assigns to a variable, a
/// field or an array element.
pub proof fn lemma_parsed_assignments_are_statements(toks: Seq<TokenView>)
    requires
        toks_ok(toks),
    ensures
        spec_parse_program(toks) matches Ok(items) ==> block_assigns_ok(items, 0) && program_targets_ok(items),
{
    lemma_skip_nl(toks, 0);
    lemma_program_rest(toks, skip_nl(toks, 0), Seq::empty());
    if let Ok(items) = spec_parse_program(toks) {
        lemma_assigns_ok_targets_ok(items);
    }
}

} // verus!
