//! The grammar of JavaGX as spec functions over token views: each function gives the
//! syntax tree that a recursive-descent parse yields from a position, and the position
//! after it, or the position (line, column) of the first syntax error.

use vstd::prelude::*;

use crate::lexer::token::{KindView, TokenKind, TokenView};
use crate::parser::ast::{
    AssignOp, BaseTypeV, BinaryOp, ClassDeclV, ExprV, FieldDeclV, ForStmtV, FuncDeclV, IfStmtV,
    ParamV, StmtV, TypeV, UnaryOp, VarDeclV, VarKind, WhileStmtV, is_lvalue_spec,
};

verus! {

/// Result of parsing a piece: the piece and the position after it, or an error position.
pub type PR<T> = Result<(T, int), ParseErrorV>;

/// A token stream the parser accepts: non-empty, ending with `Eof`.
pub open spec fn toks_ok(toks: Seq<TokenView>) -> bool {
    toks.len() > 0 && toks.last().kind == KindView::Plain(TokenKind::Eof)
}

pub open spec fn kind_at(toks: Seq<TokenView>, pos: int) -> KindView {
    toks[pos].kind
}

pub open spec fn is_kind(toks: Seq<TokenView>, pos: int, k: TokenKind) -> bool {
    toks[pos].kind == KindView::Plain(k)
}

pub open spec fn at_end(toks: Seq<TokenView>, pos: int) -> bool {
    is_kind(toks, pos, TokenKind::Eof)
}

/// The position after consuming the current token (`Eof` is never consumed).
pub open spec fn adv_pos(toks: Seq<TokenView>, pos: int) -> int {
    if at_end(toks, pos) { pos } else { pos + 1 }
}

/// A parse error as the grammar states it: where it is and, where the grammar
/// states it, its message.
pub struct ParseErrorV {
    pub line: int,
    pub col: int,
    pub message: Option<Seq<char>>,
}

/// An error at the token at `pos`, its message left unstated.
pub open spec fn err_at(toks: Seq<TokenView>, pos: int) -> ParseErrorV {
    ParseErrorV { line: toks[pos].line, col: toks[pos].col, message: None }
}

/// An error at the token at `pos` with the message `m`.
pub open spec fn err_msg(toks: Seq<TokenView>, pos: int, m: Seq<char>) -> ParseErrorV {
    ParseErrorV { line: toks[pos].line, col: toks[pos].col, message: Some(m) }
}

/// How a token kind is written in messages, as `{:?}` shows it.
pub open spec fn kind_debug_text(k: KindView) -> Seq<char> {
    match k {
        KindView::Float(t) => "FloatLit("@ + t + ")"@,
        KindView::Str(t) => "StringLit(\""@ + t + "\")"@,
        KindView::Name(t) => "Ident(\""@ + t + "\")"@,
        KindView::Plain(p) => p.debug_text_spec(),
    }
}

/// How an expected token of kind `k` is named in messages, for the kinds that the
/// grammar names one way only.
pub open spec fn kind_what(k: TokenKind) -> Option<Seq<char>> {
    match k {
        TokenKind::Assign => Some("'='"@),
        TokenKind::Class => Some("'class'"@),
        TokenKind::Colon => Some("':'"@),
        TokenKind::Dedent => Some("들여쓰기 해제"@),
        TokenKind::Fn => Some("'fn'"@),
        TokenKind::For => Some("'for'"@),
        TokenKind::If => Some("'if'"@),
        TokenKind::In => Some("'in'"@),
        TokenKind::Indent => Some("들여쓰기"@),
        TokenKind::LParen => Some("'('"@),
        TokenKind::RBracket => Some("']'"@),
        TokenKind::RParen => Some("')'"@),
        TokenKind::Return => Some("'return'"@),
        TokenKind::While => Some("'while'"@),
        _ => None,
    }
}

/// The error of a token of kind `k` expected at `pos` and not found there.
pub open spec fn expect_err(toks: Seq<TokenView>, pos: int, k: TokenKind) -> ParseErrorV {
    match kind_what(k) {
        Some(w) => err_msg(toks, pos, w + "를(을) 기대했지만 "@ + kind_debug_text(toks[pos].kind) + "를 발견했습니다"@),
        None => err_at(toks, pos),
    }
}

/// Whether a sub-parse advanced from `pos` to `p` inside the stream.
pub open spec fn fwd(toks: Seq<TokenView>, pos: int, p: int) -> bool {
    pos < p < toks.len()
}

pub open spec fn expect_spec(toks: Seq<TokenView>, pos: int, k: TokenKind) -> Result<int, ParseErrorV> {
    if is_kind(toks, pos, k) { Ok(adv_pos(toks, pos)) } else { Err(expect_err(toks, pos, k)) }
}

/// A name, where the grammar expects the kind of name `what`.
pub open spec fn expect_ident_spec(toks: Seq<TokenView>, pos: int, what: Seq<char>) -> PR<Seq<char>> {
    match kind_at(toks, pos) {
        KindView::Name(s) => Ok((s, pos + 1)),
        _ => Err(err_msg(toks, pos, what + "를(을) 기대했습니다"@)),
    }
}

/// `match_kind`: consumes the token if it has kind `k`.
pub open spec fn match_spec(toks: Seq<TokenView>, pos: int, k: TokenKind) -> (bool, int) {
    if is_kind(toks, pos, k) { (true, adv_pos(toks, pos)) } else { (false, pos) }
}

pub open spec fn skip_nl(toks: Seq<TokenView>, pos: int) -> int
    decreases toks.len() - pos when 0 <= pos < toks.len()
{
    if is_kind(toks, pos, TokenKind::Newline) && pos + 1 < toks.len() {
        skip_nl(toks, pos + 1)
    } else {
        pos
    }
}

/// The end of a simple statement: a `;` (another statement may follow on the same
/// line), a line break (and any blank lines) or the end of input.
pub open spec fn stmt_end(toks: Seq<TokenView>, pos: int) -> Result<int, ParseErrorV> {
    if is_kind(toks, pos, TokenKind::Semicolon) {
        Ok(skip_nl(toks, adv_pos(toks, pos)))
    } else if is_kind(toks, pos, TokenKind::Newline) || at_end(toks, pos) {
        Ok(skip_nl(toks, pos))
    } else {
        Err(err_msg(toks, pos, "줄바꿈(NEWLINE)을 기대했습니다"@))
    }
}

/// The primitive type a type keyword names.
pub open spec fn prim_type(k: KindView) -> Option<BaseTypeV> {
    if k == KindView::Plain(TokenKind::TyI8) { Some(BaseTypeV::I8) }
    else if k == KindView::Plain(TokenKind::TyI16) { Some(BaseTypeV::I16) }
    else if k == KindView::Plain(TokenKind::TyI32) { Some(BaseTypeV::I32) }
    else if k == KindView::Plain(TokenKind::TyI64) { Some(BaseTypeV::I64) }
    else if k == KindView::Plain(TokenKind::TyU8) { Some(BaseTypeV::U8) }
    else if k == KindView::Plain(TokenKind::TyU16) { Some(BaseTypeV::U16) }
    else if k == KindView::Plain(TokenKind::TyU32) { Some(BaseTypeV::U32) }
    else if k == KindView::Plain(TokenKind::TyU64) { Some(BaseTypeV::U64) }
    else if k == KindView::Plain(TokenKind::TyF32) { Some(BaseTypeV::F32) }
    else if k == KindView::Plain(TokenKind::TyF64) { Some(BaseTypeV::F64) }
    else if k == KindView::Plain(TokenKind::TyBool) { Some(BaseTypeV::Bool) }
    else if k == KindView::Plain(TokenKind::TyStr) { Some(BaseTypeV::Str) }
    else if k == KindView::Plain(TokenKind::TyChar) { Some(BaseTypeV::Char) }
    else if k == KindView::Plain(TokenKind::TyVoid) { Some(BaseTypeV::Void) }
    else { None }
}

/// Wraps `base` in one array level per `[` `]` pair that follows.
pub open spec fn type_suffix(toks: Seq<TokenView>, pos: int, base: BaseTypeV) -> (BaseTypeV, int)
    decreases toks.len() - pos when 0 <= pos < toks.len()
{
    if is_kind(toks, pos, TokenKind::LBracket) && pos + 1 < toks.len()
        && is_kind(toks, pos + 1, TokenKind::RBracket) && pos + 2 < toks.len() {
        type_suffix(toks, pos + 2, BaseTypeV::Array(Box::new(base)))
    } else {
        (base, pos)
    }
}

pub open spec fn parse_type_spec(toks: Seq<TokenView>, pos: int) -> PR<TypeV> {
    let base0 = match prim_type(kind_at(toks, pos)) {
        Some(b) => Some(b),
        None => match kind_at(toks, pos) {
            KindView::Name(n) => Some(BaseTypeV::Named(n)),
            _ => None,
        },
    };
    match base0 {
        None => Err(err_msg(toks, pos, "타입 이름을 기대했습니다"@)),
        Some(b) => {
            let (base, p1) = type_suffix(toks, pos + 1, b);
            let (nullable, p2) = match_spec(toks, p1, TokenKind::Question);
            Ok((TypeV { base, nullable }, p2))
        },
    }
}

/// The assignment operator a token spells.
pub open spec fn assign_op(k: KindView) -> Option<AssignOp> {
    if k == KindView::Plain(TokenKind::Assign) { Some(AssignOp::Assign) }
    else if k == KindView::Plain(TokenKind::PlusAssign) { Some(AssignOp::AddAssign) }
    else if k == KindView::Plain(TokenKind::MinusAssign) { Some(AssignOp::SubAssign) }
    else if k == KindView::Plain(TokenKind::StarAssign) { Some(AssignOp::MulAssign) }
    else if k == KindView::Plain(TokenKind::SlashAssign) { Some(AssignOp::DivAssign) }
    else { None }
}

/// The binary operator of precedence `level` that a token spells:
/// 0 `or`, 1 `and`, 2 equality, 3 comparison, 4 additive, 5 multiplicative.
pub open spec fn binary_op(level: int, k: KindView) -> Option<BinaryOp> {
    if level == 0 {
        if k == KindView::Plain(TokenKind::Or) { Some(BinaryOp::Or) } else { None }
    } else if level == 1 {
        if k == KindView::Plain(TokenKind::And) { Some(BinaryOp::And) } else { None }
    } else if level == 2 {
        if k == KindView::Plain(TokenKind::Eq) { Some(BinaryOp::Eq) }
        else if k == KindView::Plain(TokenKind::NotEq) { Some(BinaryOp::NotEq) }
        else { None }
    } else if level == 3 {
        if k == KindView::Plain(TokenKind::Lt) { Some(BinaryOp::Lt) }
        else if k == KindView::Plain(TokenKind::LtEq) { Some(BinaryOp::LtEq) }
        else if k == KindView::Plain(TokenKind::Gt) { Some(BinaryOp::Gt) }
        else if k == KindView::Plain(TokenKind::GtEq) { Some(BinaryOp::GtEq) }
        else { None }
    } else if level == 4 {
        if k == KindView::Plain(TokenKind::Plus) { Some(BinaryOp::Add) }
        else if k == KindView::Plain(TokenKind::Minus) { Some(BinaryOp::Sub) }
        else { None }
    } else {
        if k == KindView::Plain(TokenKind::Star) { Some(BinaryOp::Mul) }
        else if k == KindView::Plain(TokenKind::Slash) { Some(BinaryOp::Div) }
        else if k == KindView::Plain(TokenKind::Percent) { Some(BinaryOp::Mod) }
        else { None }
    }
}

pub open spec fn unary_op(k: KindView) -> Option<UnaryOp> {
    if k == KindView::Plain(TokenKind::Not) || k == KindView::Plain(TokenKind::Bang) { Some(UnaryOp::Not) }
    else if k == KindView::Plain(TokenKind::Minus) { Some(UnaryOp::Neg) }
    else { None }
}

/// `expr = logic_or`: an expression; an assignment is a statement, not an expression.
pub open spec fn parse_expr_spec(toks: Seq<TokenView>, pos: int) -> PR<ExprV>
    decreases toks.len() - pos, 30int when 0 <= pos < toks.len()
{
    parse_binary_spec(toks, pos, 0)
}

/// `assign_stmt = logic_or [ op logic_or ]`: the expression of an expression
/// statement. The target must be assignable, and the value is no assignment: there
/// is no chaining such as `a = b = 1`.
pub open spec fn parse_assign_spec(toks: Seq<TokenView>, pos: int) -> PR<ExprV>
    recommends
        0 <= pos < toks.len(),
{
    let line = toks[pos].line;
    match parse_binary_spec(toks, pos, 0) {
        Err(e) => Err(e),
        Ok((lhs, p1)) => if !fwd(toks, pos, p1) { Err(err_at(toks, pos)) } else {
            match assign_op(kind_at(toks, p1)) {
                None => Ok((lhs, p1)),
                Some(op) => if !is_lvalue_spec(lhs) {
                    Err(err_msg(toks, p1, "대입 연산자의 좌변은 변수, 필드 또는 인덱스 표현식이어야 합니다"@))
                } else {
                    match parse_binary_spec(toks, adv_pos(toks, p1), 0) {
                        Err(e) => Err(e),
                        Ok((value, p2)) => Ok((ExprV::Assign { op, target: Box::new(lhs), value: Box::new(value), line }, p2)),
                    }
                },
            }
        },
    }
}

/// A left-associative chain of binary operators of precedence `level` (see `binary_op`).
pub open spec fn parse_binary_spec(toks: Seq<TokenView>, pos: int, level: int) -> PR<ExprV>
    decreases toks.len() - pos, 20 - 2 * level when 0 <= pos < toks.len() && 0 <= level <= 5
{
    let first = if level < 5 { parse_binary_spec(toks, pos, level + 1) } else { parse_unary_spec(toks, pos) };
    match first {
        Err(e) => Err(e),
        Ok((lhs, p1)) => if !fwd(toks, pos, p1) { Err(err_at(toks, pos)) } else {
            binary_rest_spec(toks, p1, level, lhs)
        },
    }
}

/// The rest of a binary chain after its left operand `lhs`.
pub open spec fn binary_rest_spec(toks: Seq<TokenView>, pos: int, level: int, lhs: ExprV) -> PR<ExprV>
    decreases toks.len() - pos, 19 - 2 * level when 0 <= pos < toks.len() && 0 <= level <= 5
{
    match binary_op(level, kind_at(toks, pos)) {
        None => Ok((lhs, pos)),
        Some(op) => {
            let line = toks[pos].line;
            let p1 = adv_pos(toks, pos);
            let operand = if level < 5 { parse_binary_spec(toks, p1, level + 1) } else { parse_unary_spec(toks, p1) };
            match operand {
                Err(e) => Err(e),
                Ok((rhs, p2)) => if !fwd(toks, pos, p2) { Err(err_at(toks, pos)) } else {
                    binary_rest_spec(toks, p2, level, ExprV::Binary { op, lhs: Box::new(lhs), rhs: Box::new(rhs), line })
                },
            }
        },
    }
}

/// `unary = [ "not" | "-" | "!" ] unary | postfix`
pub open spec fn parse_unary_spec(toks: Seq<TokenView>, pos: int) -> PR<ExprV>
    decreases toks.len() - pos, 8int when 0 <= pos < toks.len()
{
    let line = toks[pos].line;
    match unary_op(kind_at(toks, pos)) {
        Some(op) => match parse_unary_spec(toks, pos + 1) {
            Err(e) => Err(e),
            Ok((e, p1)) => Ok((ExprV::Unary { op, expr: Box::new(e), line }, p1)),
        },
        None => parse_postfix_spec(toks, pos),
    }
}

/// `postfix = primary { "." ident | "(" args ")" | "[" expr "]" | "as" type }`
pub open spec fn parse_postfix_spec(toks: Seq<TokenView>, pos: int) -> PR<ExprV>
    decreases toks.len() - pos, 7int when 0 <= pos < toks.len()
{
    match parse_primary_spec(toks, pos) {
        Err(e) => Err(e),
        Ok((e, p1)) => if !fwd(toks, pos, p1) { Err(err_at(toks, pos)) } else {
            postfix_rest_spec(toks, p1, e)
        },
    }
}

pub open spec fn postfix_rest_spec(toks: Seq<TokenView>, pos: int, e: ExprV) -> PR<ExprV>
    decreases toks.len() - pos, 6int when 0 <= pos < toks.len()
{
    let line = toks[pos].line;
    let p1 = adv_pos(toks, pos);
    if is_kind(toks, pos, TokenKind::Dot) {
        match expect_ident_spec(toks, p1, "멤버 이름"@) {
            Err(x) => Err(x),
            Ok((name, p2)) => if !fwd(toks, pos, p2) { Err(err_at(toks, pos)) } else {
                postfix_rest_spec(toks, p2, ExprV::Member { object: Box::new(e), name, line })
            },
        }
    } else if is_kind(toks, pos, TokenKind::LParen) {
        match parse_args_spec(toks, p1) {
            Err(x) => Err(x),
            Ok((args, p2)) => if !(pos <= p2 < toks.len()) { Err(err_at(toks, pos)) } else {
                match expect_spec(toks, p2, TokenKind::RParen) {
                    Err(x) => Err(x),
                    Ok(p3) => if !fwd(toks, pos, p3) { Err(err_at(toks, pos)) } else {
                        postfix_rest_spec(toks, p3, ExprV::Call { callee: Box::new(e), args, line })
                    },
                }
            },
        }
    } else if is_kind(toks, pos, TokenKind::LBracket) {
        match parse_expr_spec(toks, p1) {
            Err(x) => Err(x),
            Ok((index, p2)) => if !fwd(toks, pos, p2) { Err(err_at(toks, pos)) } else {
                match expect_spec(toks, p2, TokenKind::RBracket) {
                    Err(x) => Err(x),
                    Ok(p3) => if !fwd(toks, pos, p3) { Err(err_at(toks, pos)) } else {
                        postfix_rest_spec(toks, p3, ExprV::Index { object: Box::new(e), index: Box::new(index), line })
                    },
                }
            },
        }
    } else if is_kind(toks, pos, TokenKind::As) {
        match parse_type_spec(toks, p1) {
            Err(x) => Err(x),
            Ok((ty, p2)) => if !fwd(toks, pos, p2) { Err(err_at(toks, pos)) } else {
                postfix_rest_spec(toks, p2, ExprV::Cast { expr: Box::new(e), ty, line })
            },
        }
    } else {
        Ok((e, pos))
    }
}

/// `[ expr { "," expr } ]` up to (not including) a closing `)`.
pub open spec fn parse_args_spec(toks: Seq<TokenView>, pos: int) -> PR<Seq<ExprV>>
    decreases toks.len() - pos, 40int when 0 <= pos < toks.len()
{
    if is_kind(toks, pos, TokenKind::RParen) {
        Ok((Seq::empty(), pos))
    } else {
        parse_list_spec(toks, pos)
    }
}

/// `expr { "," expr }`
pub open spec fn parse_list_spec(toks: Seq<TokenView>, pos: int) -> PR<Seq<ExprV>>
    decreases toks.len() - pos, 39int when 0 <= pos < toks.len()
{
    match parse_expr_spec(toks, pos) {
        Err(e) => Err(e),
        Ok((e, p1)) => if !fwd(toks, pos, p1) { Err(err_at(toks, pos)) } else {
            list_rest_spec(toks, p1, seq![e])
        },
    }
}

pub open spec fn list_rest_spec(toks: Seq<TokenView>, pos: int, acc: Seq<ExprV>) -> PR<Seq<ExprV>>
    decreases toks.len() - pos, 38int when 0 <= pos < toks.len()
{
    if is_kind(toks, pos, TokenKind::Comma) {
        match parse_expr_spec(toks, pos + 1) {
            Err(e) => Err(e),
            Ok((e, p1)) => if !fwd(toks, pos, p1) { Err(err_at(toks, pos)) } else {
                list_rest_spec(toks, p1, acc.push(e))
            },
        }
    } else {
        Ok((acc, pos))
    }
}

/// The literal expression a literal token stands for.
pub open spec fn literal(k: KindView) -> Option<ExprV> {
    match k {
        KindView::Float(s) => Some(ExprV::FloatLit(s)),
        KindView::Str(s) => Some(ExprV::StringLit(s)),
        KindView::Name(s) => Some(ExprV::Ident(s)),
        KindView::Plain(t) => match t {
            TokenKind::IntLit(v) => Some(ExprV::IntLit(v)),
            TokenKind::CharLit(c) => Some(ExprV::CharLit(c)),
            TokenKind::BoolLit(b) => Some(ExprV::BoolLit(b)),
            TokenKind::Null => Some(ExprV::Null),
            TokenKind::SelfKw => Some(ExprV::SelfExpr),
            _ => None,
        },
    }
}

/// `primary = literal | "null" | "self" | ident | "new" ident "(" args ")" | "(" expr ")" | "[" [list] "]"`
pub open spec fn parse_primary_spec(toks: Seq<TokenView>, pos: int) -> PR<ExprV>
    decreases toks.len() - pos, 5int when 0 <= pos < toks.len()
{
    let line = toks[pos].line;
    match literal(kind_at(toks, pos)) {
        Some(e) => Ok((e, adv_pos(toks, pos))),
        None => if is_kind(toks, pos, TokenKind::New) {
            match expect_ident_spec(toks, pos + 1, "클래스 이름"@) {
                Err(x) => Err(x),
                Ok((class_name, p1)) => match expect_spec(toks, p1, TokenKind::LParen) {
                    Err(x) => Err(x),
                    Ok(p2) => if !fwd(toks, pos, p2) { Err(err_at(toks, pos)) } else {
                        match parse_args_spec(toks, p2) {
                            Err(x) => Err(x),
                            Ok((args, p3)) => if !(pos <= p3 < toks.len()) { Err(err_at(toks, pos)) } else {
                                match expect_spec(toks, p3, TokenKind::RParen) {
                                    Err(x) => Err(x),
                                    Ok(p4) => Ok((ExprV::New { class_name, args, line }, p4)),
                                }
                            },
                        }
                    },
                },
            }
        } else if is_kind(toks, pos, TokenKind::LParen) {
            match parse_expr_spec(toks, pos + 1) {
                Err(x) => Err(x),
                Ok((inner, p1)) => if !fwd(toks, pos, p1) { Err(err_at(toks, pos)) } else {
                    match expect_spec(toks, p1, TokenKind::RParen) {
                        Err(x) => Err(x),
                        Ok(p2) => Ok((ExprV::Grouping(Box::new(inner)), p2)),
                    }
                },
            }
        } else if is_kind(toks, pos, TokenKind::LBracket) {
            let elems: PR<Seq<ExprV>> = if is_kind(toks, pos + 1, TokenKind::RBracket) {
                Ok((Seq::empty(), pos + 1))
            } else {
                parse_list_spec(toks, pos + 1)
            };
            match elems {
                Err(x) => Err(x),
                Ok((elements, p1)) => if !fwd(toks, pos, p1) { Err(err_at(toks, pos)) } else {
                    match expect_spec(toks, p1, TokenKind::RBracket) {
                        Err(x) => Err(x),
                        Ok(p2) => Ok((ExprV::ArrayLit { elements, line }, p2)),
                    }
                },
            }
        } else {
            Err(err_msg(toks, pos, "표현식을 기대했지만 "@ + kind_debug_text(toks[pos].kind) + "를 발견했습니다"@))
        },
    }
}


/// Whether `p` lies in the stream at or after `pos`.
pub open spec fn inb(toks: Seq<TokenView>, pos: int, p: int) -> bool {
    pos <= p < toks.len()
}

/// `param = ident ":" type`
pub open spec fn parse_param_spec(toks: Seq<TokenView>, pos: int) -> PR<ParamV> {
    match expect_ident_spec(toks, pos, "매개변수 이름"@) {
        Err(e) => Err(e),
        Ok((name, p1)) => match expect_spec(toks, p1, TokenKind::Colon) {
            Err(e) => Err(e),
            Ok(p2) => match parse_type_spec(toks, p2) {
                Err(e) => Err(e),
                Ok((ty, p3)) => Ok((ParamV { name, ty }, p3)),
            },
        },
    }
}

pub open spec fn params_rest_spec(toks: Seq<TokenView>, pos: int, acc: Seq<ParamV>) -> PR<Seq<ParamV>>
    decreases toks.len() - pos when 0 <= pos < toks.len()
{
    if is_kind(toks, pos, TokenKind::Comma) {
        match parse_param_spec(toks, adv_pos(toks, pos)) {
            Err(e) => Err(e),
            Ok((p, p1)) => if !fwd(toks, pos, p1) { Err(err_at(toks, pos)) } else {
                params_rest_spec(toks, p1, acc.push(p))
            },
        }
    } else {
        Ok((acc, pos))
    }
}

/// `param_list = param { "," param }`
pub open spec fn parse_params_spec(toks: Seq<TokenView>, pos: int) -> PR<Seq<ParamV>> {
    match parse_param_spec(toks, pos) {
        Err(e) => Err(e),
        Ok((p, p1)) => if !fwd(toks, pos, p1) { Err(err_at(toks, pos)) } else {
            params_rest_spec(toks, p1, seq![p])
        },
    }
}

/// See `parse_block_body`; closed so that other modules unfold it only through
/// `lemma_parse_block_unfold`.
pub closed spec fn parse_block_spec(toks: Seq<TokenView>, pos: int) -> PR<Seq<StmtV>>
    decreases toks.len() - pos, 55int when 0 <= pos < toks.len()
{
    parse_block_body(toks, pos)
}

pub proof fn lemma_parse_block_unfold(toks: Seq<TokenView>, pos: int)
    requires
        0 <= pos < toks.len(),
    ensures
        parse_block_spec(toks, pos) == parse_block_body(toks, pos),
{
}

/// `block = NEWLINE INDENT { statement } DEDENT`
pub open spec fn parse_block_body(toks: Seq<TokenView>, pos: int) -> PR<Seq<StmtV>>
    decreases toks.len() - pos, 54int when 0 <= pos < toks.len()
{
    match expect_spec(toks, pos, TokenKind::Newline) {
        Err(e) => Err(e),
        Ok(p1) => match expect_spec(toks, p1, TokenKind::Indent) {
            Err(e) => Err(e),
            Ok(p2) => if !fwd(toks, pos, p2) { Err(err_at(toks, pos)) } else {
                match block_body_spec(toks, p2, Seq::empty()) {
                    Err(e) => Err(e),
                    Ok((stmts, p3)) => if !inb(toks, pos, p3) { Err(err_at(toks, pos)) } else {
                        match expect_spec(toks, p3, TokenKind::Dedent) {
                            Err(e) => Err(e),
                            Ok(p4) => Ok((stmts, p4)),
                        }
                    },
                }
            },
        },
    }
}

pub open spec fn block_body_spec(toks: Seq<TokenView>, pos: int, acc: Seq<StmtV>) -> PR<Seq<StmtV>>
    decreases toks.len() - pos, 70int when 0 <= pos < toks.len()
{
    if is_kind(toks, pos, TokenKind::Dedent) || at_end(toks, pos) {
        Ok((acc, pos))
    } else {
        match parse_stmt_spec(toks, pos) {
            Err(e) => Err(e),
            Ok((st, p1)) => if !fwd(toks, pos, p1) { Err(err_at(toks, pos)) } else {
                block_body_spec(toks, p1, acc.push(st))
            },
        }
    }
}

/// See `parse_func_body`; closed so that other modules unfold it only through
/// `lemma_parse_func_unfold`.
pub closed spec fn parse_func_spec(toks: Seq<TokenView>, pos: int, allow_self: bool) -> PR<FuncDeclV>
    decreases toks.len() - pos, 50int when 0 <= pos < toks.len()
{
    parse_func_body(toks, pos, allow_self)
}

pub proof fn lemma_parse_func_unfold(toks: Seq<TokenView>, pos: int, allow_self: bool)
    requires
        0 <= pos < toks.len(),
    ensures
        parse_func_spec(toks, pos, allow_self) == parse_func_body(toks, pos, allow_self),
{
}

/// `func_decl = "fn" ident "(" [ "self" { "," param } | param_list ] ")" [ "->" type ] ":" block`;
/// `self` is allowed only when `allow_self` (inside a class).
pub open spec fn parse_func_body(toks: Seq<TokenView>, pos: int, allow_self: bool) -> PR<FuncDeclV>
    decreases toks.len() - pos, 49int when 0 <= pos < toks.len()
{
    let line = toks[pos].line;
    match expect_spec(toks, pos, TokenKind::Fn) {
        Err(e) => Err(e),
        Ok(p1) => match expect_ident_spec(toks, p1, "함수 이름"@) {
            Err(e) => Err(e),
            Ok((name, p2)) => match expect_spec(toks, p2, TokenKind::LParen) {
                Err(e) => Err(e),
                Ok(p3) => if !inb(toks, pos, p3) { Err(err_at(toks, pos)) } else {
                    let head: Result<(bool, Seq<ParamV>, int), ParseErrorV> =
                        if is_kind(toks, p3, TokenKind::RParen) {
                            Ok((false, Seq::empty(), p3))
                        } else if allow_self && is_kind(toks, p3, TokenKind::SelfKw) {
                            let q = adv_pos(toks, p3);
                            if is_kind(toks, q, TokenKind::Comma) {
                                match parse_params_spec(toks, adv_pos(toks, q)) {
                                    Err(e) => Err(e),
                                    Ok((ps, q2)) => Ok((true, ps, q2)),
                                }
                            } else {
                                Ok((true, Seq::empty(), q))
                            }
                        } else {
                            match parse_params_spec(toks, p3) {
                                Err(e) => Err(e),
                                Ok((ps, q2)) => Ok((false, ps, q2)),
                            }
                        };
                    match head {
                        Err(e) => Err(e),
                        Ok((has_self, params, p4)) => match expect_spec(toks, p4, TokenKind::RParen) {
                            Err(e) => Err(e),
                            Ok(p5) => {
                                let ret: Result<(Option<TypeV>, int), ParseErrorV> =
                                    if is_kind(toks, p5, TokenKind::Arrow) {
                                        match parse_type_spec(toks, adv_pos(toks, p5)) {
                                            Err(e) => Err(e),
                                            Ok((t, q)) => Ok((Some(t), q)),
                                        }
                                    } else {
                                        Ok((None, p5))
                                    };
                                match ret {
                                    Err(e) => Err(e),
                                    Ok((ret_ty, p6)) => match expect_spec(toks, p6, TokenKind::Colon) {
                                        Err(e) => Err(e),
                                        Ok(p7) => if !fwd(toks, pos, p7) { Err(err_at(toks, pos)) } else {
                                            match parse_block_spec(toks, p7) {
                                                Err(e) => Err(e),
                                                Ok((body, p8)) => Ok((FuncDeclV {
                                                    name,
                                                    has_self,
                                                    is_pub: false,
                                                    params,
                                                    ret_ty,
                                                    body,
                                                    line,
                                                }, p8)),
                                            }
                                        },
                                    },
                                }
                            },
                        },
                    }
                },
            },
        },
    }
}

/// `field_decl = ident ":" type NEWLINE` (the visibility was read by the caller).
pub open spec fn parse_field_spec(toks: Seq<TokenView>, pos: int, is_pub: bool) -> PR<FieldDeclV> {
    let line = toks[pos].line;
    match expect_ident_spec(toks, pos, "필드 이름"@) {
        Err(e) => Err(e),
        Ok((name, p1)) => match expect_spec(toks, p1, TokenKind::Colon) {
            Err(e) => Err(e),
            Ok(p2) => match parse_type_spec(toks, p2) {
                Err(e) => Err(e),
                Ok((ty, p3)) => if !inb(toks, pos, p3) { Err(err_at(toks, pos)) } else {
                    match stmt_end(toks, p3) {
                        Err(e) => Err(e),
                        Ok(p4) => Ok((FieldDeclV { name, ty, is_pub, line }, p4)),
                    }
                },
            },
        },
    }
}

/// The members of a class body, up to its `Dedent`.
pub open spec fn class_body_spec(toks: Seq<TokenView>, pos: int, fields: Seq<FieldDeclV>, methods: Seq<FuncDeclV>)
    -> PR<(Seq<FieldDeclV>, Seq<FuncDeclV>)>
    decreases toks.len() - pos, 58int when 0 <= pos < toks.len()
{
    if is_kind(toks, pos, TokenKind::Dedent) || at_end(toks, pos) {
        Ok(((fields, methods), pos))
    } else {
        let (is_pub, p1) = match_spec(toks, pos, TokenKind::Pub);
        let p2 = if is_pub { p1 } else { match_spec(toks, p1, TokenKind::Priv).1 };
        if !inb(toks, pos, p2) {
            Err(err_at(toks, pos))
        } else if is_kind(toks, p2, TokenKind::Fn) {
            match parse_func_spec(toks, p2, true) {
                Err(e) => Err(e),
                Ok((f, p3)) => if !fwd(toks, pos, p3) { Err(err_at(toks, pos)) } else {
                    class_body_spec(toks, p3, fields, methods.push(FuncDeclV { is_pub, ..f }))
                },
            }
        } else {
            match parse_field_spec(toks, p2, is_pub) {
                Err(e) => Err(e),
                Ok((fd, p3)) => if !fwd(toks, pos, p3) { Err(err_at(toks, pos)) } else {
                    class_body_spec(toks, p3, fields.push(fd), methods)
                },
            }
        }
    }
}

/// See `parse_class_body`; closed so that other modules unfold it only through
/// `lemma_parse_class_unfold`.
pub closed spec fn parse_class_spec(toks: Seq<TokenView>, pos: int) -> PR<ClassDeclV>
    decreases toks.len() - pos, 50int when 0 <= pos < toks.len()
{
    parse_class_body(toks, pos)
}

pub proof fn lemma_parse_class_unfold(toks: Seq<TokenView>, pos: int)
    requires
        0 <= pos < toks.len(),
    ensures
        parse_class_spec(toks, pos) == parse_class_body(toks, pos),
{
}

/// `class_decl = "class" ident [ "(" ident ")" ] ":" NEWLINE INDENT { member } DEDENT`
pub open spec fn parse_class_body(toks: Seq<TokenView>, pos: int) -> PR<ClassDeclV>
    decreases toks.len() - pos, 49int when 0 <= pos < toks.len()
{
    let line = toks[pos].line;
    match expect_spec(toks, pos, TokenKind::Class) {
        Err(e) => Err(e),
        Ok(p1) => match expect_ident_spec(toks, p1, "클래스 이름"@) {
            Err(e) => Err(e),
            Ok((name, p2)) => {
                let sup: Result<(Option<Seq<char>>, int), ParseErrorV> =
                    if is_kind(toks, p2, TokenKind::LParen) {
                        match expect_ident_spec(toks, adv_pos(toks, p2), "상위 클래스 이름"@) {
                            Err(e) => Err(e),
                            Ok((s, q)) => match expect_spec(toks, q, TokenKind::RParen) {
                                Err(e) => Err(e),
                                Ok(q2) => Ok((Some(s), q2)),
                            },
                        }
                    } else {
                        Ok((None, p2))
                    };
                match sup {
                    Err(e) => Err(e),
                    Ok((superclass, p3)) => match expect_spec(toks, p3, TokenKind::Colon) {
                        Err(e) => Err(e),
                        Ok(p4) => match expect_spec(toks, p4, TokenKind::Newline) {
                            Err(e) => Err(e),
                            Ok(p5) => match expect_spec(toks, p5, TokenKind::Indent) {
                                Err(e) => Err(e),
                                Ok(p6) => if !fwd(toks, pos, p6) { Err(err_at(toks, pos)) } else {
                                    match class_body_spec(toks, p6, Seq::empty(), Seq::empty()) {
                                        Err(e) => Err(e),
                                        Ok(((fields, methods), p7)) => if !inb(toks, pos, p7) { Err(err_at(toks, pos)) } else {
                                            match expect_spec(toks, p7, TokenKind::Dedent) {
                                                Err(e) => Err(e),
                                                Ok(p8) => Ok((ClassDeclV { name, superclass, fields, methods, line }, p8)),
                                            }
                                        },
                                    }
                                },
                            },
                        },
                    },
                }
            },
        },
    }
}

/// The binding kind a token introduces.
pub open spec fn var_kind(k: KindView) -> VarKind {
    if k == KindView::Plain(TokenKind::Let) { VarKind::Let }
    else if k == KindView::Plain(TokenKind::Var) { VarKind::Var }
    else { VarKind::Const }
}

/// `var_decl = ("let" | "var" | "const") ident [ ":" type ] "=" expr NEWLINE`
pub open spec fn parse_var_spec(toks: Seq<TokenView>, pos: int) -> PR<VarDeclV>
    decreases toks.len() - pos, 50int when 0 <= pos < toks.len()
{
    let line = toks[pos].line;
    let kind = var_kind(kind_at(toks, pos));
    match expect_ident_spec(toks, adv_pos(toks, pos), "변수 이름"@) {
        Err(e) => Err(e),
        Ok((name, p1)) => {
            let ty: Result<(Option<TypeV>, int), ParseErrorV> = if is_kind(toks, p1, TokenKind::Colon) {
                match parse_type_spec(toks, adv_pos(toks, p1)) {
                    Err(e) => Err(e),
                    Ok((t, q)) => Ok((Some(t), q)),
                }
            } else {
                Ok((None, p1))
            };
            match ty {
                Err(e) => Err(e),
                Ok((ty, p2)) => match expect_spec(toks, p2, TokenKind::Assign) {
                    Err(e) => Err(e),
                    Ok(p3) => if !fwd(toks, pos, p3) { Err(err_at(toks, pos)) } else {
                        match parse_expr_spec(toks, p3) {
                            Err(e) => Err(e),
                            Ok((value, p4)) => if !inb(toks, pos, p4) { Err(err_at(toks, pos)) } else {
                                match stmt_end(toks, p4) {
                                    Err(e) => Err(e),
                                    Ok(p5) => Ok((VarDeclV { kind, name, ty, value, line }, p5)),
                                }
                            },
                        }
                    },
                },
            }
        },
    }
}

/// The `elif` clauses of an `if` statement.
pub open spec fn elif_spec(toks: Seq<TokenView>, pos: int, acc: Seq<(ExprV, Seq<StmtV>)>) -> PR<Seq<(ExprV, Seq<StmtV>)>>
    decreases toks.len() - pos, 52int when 0 <= pos < toks.len()
{
    if is_kind(toks, pos, TokenKind::Elif) {
        match parse_expr_spec(toks, pos + 1) {
            Err(e) => Err(e),
            Ok((cond, p1)) => if !fwd(toks, pos, p1) { Err(err_at(toks, pos)) } else {
                match expect_spec(toks, p1, TokenKind::Colon) {
                    Err(e) => Err(e),
                    Ok(p2) => if !fwd(toks, pos, p2) { Err(err_at(toks, pos)) } else {
                        match parse_block_spec(toks, p2) {
                            Err(e) => Err(e),
                            Ok((body, p3)) => if !fwd(toks, pos, p3) { Err(err_at(toks, pos)) } else {
                                elif_spec(toks, p3, acc.push((cond, body)))
                            },
                        }
                    },
                }
            },
        }
    } else {
        Ok((acc, pos))
    }
}

/// `if_stmt = "if" expr ":" block { "elif" expr ":" block } [ "else" ":" block ]`
pub open spec fn parse_if_spec(toks: Seq<TokenView>, pos: int) -> PR<IfStmtV>
    decreases toks.len() - pos, 50int when 0 <= pos < toks.len()
{
    let line = toks[pos].line;
    match expect_spec(toks, pos, TokenKind::If) {
        Err(e) => Err(e),
        Ok(p1) => if !fwd(toks, pos, p1) { Err(err_at(toks, pos)) } else {
            match parse_expr_spec(toks, p1) {
                Err(e) => Err(e),
                Ok((cond, p2)) => if !inb(toks, pos, p2) { Err(err_at(toks, pos)) } else {
                    match expect_spec(toks, p2, TokenKind::Colon) {
                        Err(e) => Err(e),
                        Ok(p3) => if !fwd(toks, pos, p3) { Err(err_at(toks, pos)) } else {
                            match parse_block_spec(toks, p3) {
                                Err(e) => Err(e),
                                Ok((body, p4)) => if !fwd(toks, pos, p4) { Err(err_at(toks, pos)) } else {
                                    match elif_spec(toks, p4, seq![(cond, body)]) {
                                        Err(e) => Err(e),
                                        Ok((branches, p5)) => if !inb(toks, pos, p5) { Err(err_at(toks, pos)) } else {
                                            if is_kind(toks, p5, TokenKind::Else) {
                                                match expect_spec(toks, adv_pos(toks, p5), TokenKind::Colon) {
                                                    Err(e) => Err(e),
                                                    Ok(p6) => if !fwd(toks, pos, p6) { Err(err_at(toks, pos)) } else {
                                                        match parse_block_spec(toks, p6) {
                                                            Err(e) => Err(e),
                                                            Ok((eb, p7)) => Ok((IfStmtV { branches, else_body: Some(eb), line }, p7)),
                                                        }
                                                    },
                                                }
                                            } else {
                                                Ok((IfStmtV { branches, else_body: None, line }, p5))
                                            }
                                        },
                                    }
                                },
                            }
                        },
                    }
                },
            }
        },
    }
}

/// `while_stmt = "while" expr ":" block`
pub open spec fn parse_while_spec(toks: Seq<TokenView>, pos: int) -> PR<WhileStmtV>
    decreases toks.len() - pos, 50int when 0 <= pos < toks.len()
{
    let line = toks[pos].line;
    match expect_spec(toks, pos, TokenKind::While) {
        Err(e) => Err(e),
        Ok(p1) => if !fwd(toks, pos, p1) { Err(err_at(toks, pos)) } else {
            match parse_expr_spec(toks, p1) {
                Err(e) => Err(e),
                Ok((cond, p2)) => if !inb(toks, pos, p2) { Err(err_at(toks, pos)) } else {
                    match expect_spec(toks, p2, TokenKind::Colon) {
                        Err(e) => Err(e),
                        Ok(p3) => if !fwd(toks, pos, p3) { Err(err_at(toks, pos)) } else {
                            match parse_block_spec(toks, p3) {
                                Err(e) => Err(e),
                                Ok((body, p4)) => Ok((WhileStmtV { cond, body, line }, p4)),
                            }
                        },
                    }
                },
            }
        },
    }
}

/// `for_stmt = "for" ident "in" expr ":" block`
pub open spec fn parse_for_spec(toks: Seq<TokenView>, pos: int) -> PR<ForStmtV>
    decreases toks.len() - pos, 50int when 0 <= pos < toks.len()
{
    let line = toks[pos].line;
    match expect_spec(toks, pos, TokenKind::For) {
        Err(e) => Err(e),
        Ok(p1) => match expect_ident_spec(toks, p1, "반복 변수 이름"@) {
            Err(e) => Err(e),
            Ok((var_name, p2)) => match expect_spec(toks, p2, TokenKind::In) {
                Err(e) => Err(e),
                Ok(p3) => if !fwd(toks, pos, p3) { Err(err_at(toks, pos)) } else {
                    match parse_expr_spec(toks, p3) {
                        Err(e) => Err(e),
                        Ok((iter, p4)) => if !inb(toks, pos, p4) { Err(err_at(toks, pos)) } else {
                            match expect_spec(toks, p4, TokenKind::Colon) {
                                Err(e) => Err(e),
                                Ok(p5) => if !fwd(toks, pos, p5) { Err(err_at(toks, pos)) } else {
                                    match parse_block_spec(toks, p5) {
                                        Err(e) => Err(e),
                                        Ok((body, p6)) => Ok((ForStmtV { var_name, iter, body, line }, p6)),
                                    }
                                },
                            }
                        },
                    }
                },
            },
        },
    }
}

/// `return_stmt = "return" [ expr ] NEWLINE`
pub open spec fn parse_return_spec(toks: Seq<TokenView>, pos: int) -> PR<StmtV>
    decreases toks.len() - pos, 50int when 0 <= pos < toks.len()
{
    let line = toks[pos].line;
    match expect_spec(toks, pos, TokenKind::Return) {
        Err(e) => Err(e),
        Ok(p1) => if !fwd(toks, pos, p1) { Err(err_at(toks, pos)) } else {
            let v: Result<(Option<ExprV>, int), ParseErrorV> =
                if is_kind(toks, p1, TokenKind::Newline) || at_end(toks, p1) {
                    Ok((None, p1))
                } else {
                    match parse_expr_spec(toks, p1) {
                        Err(e) => Err(e),
                        Ok((e, q)) => Ok((Some(e), q)),
                    }
                };
            match v {
                Err(e) => Err(e),
                Ok((value, p2)) => if !inb(toks, pos, p2) { Err(err_at(toks, pos)) } else {
                    match stmt_end(toks, p2) {
                        Err(e) => Err(e),
                        Ok(p3) => Ok((StmtV::Return { value, line }, p3)),
                    }
                },
            }
        },
    }
}

/// See `parse_stmt_body`; closed so that other modules unfold it only through
/// `lemma_parse_stmt_unfold`.
pub closed spec fn parse_stmt_spec(toks: Seq<TokenView>, pos: int) -> PR<StmtV>
    decreases toks.len() - pos, 60int when 0 <= pos < toks.len()
{
    parse_stmt_body(toks, pos)
}

pub proof fn lemma_parse_stmt_unfold(toks: Seq<TokenView>, pos: int)
    requires
        0 <= pos < toks.len(),
    ensures
        parse_stmt_spec(toks, pos) == parse_stmt_body(toks, pos),
{
}

/// `statement = class_decl | func_decl | var_decl | if | while | for | return | break | continue | expr NEWLINE`
pub open spec fn parse_stmt_body(toks: Seq<TokenView>, pos: int) -> PR<StmtV>
    decreases toks.len() - pos, 59int when 0 <= pos < toks.len()
{
    let line = toks[pos].line;
    if is_kind(toks, pos, TokenKind::Class) {
        match parse_class_spec(toks, pos) {
            Err(e) => Err(e),
            Ok((c, p)) => Ok((StmtV::ClassDecl(c), p)),
        }
    } else if is_kind(toks, pos, TokenKind::Fn)
        || ((is_kind(toks, pos, TokenKind::Pub) || is_kind(toks, pos, TokenKind::Priv))
            && pos + 1 < toks.len() && is_kind(toks, pos + 1, TokenKind::Fn)) {
        match parse_func_spec(toks, pos, false) {
            Err(e) => Err(e),
            Ok((f, p)) => Ok((StmtV::FuncDecl(f), p)),
        }
    } else if is_kind(toks, pos, TokenKind::Let) || is_kind(toks, pos, TokenKind::Var)
        || is_kind(toks, pos, TokenKind::Const) {
        match parse_var_spec(toks, pos) {
            Err(e) => Err(e),
            Ok((v, p)) => Ok((StmtV::VarDecl(v), p)),
        }
    } else if is_kind(toks, pos, TokenKind::If) {
        match parse_if_spec(toks, pos) {
            Err(e) => Err(e),
            Ok((i, p)) => Ok((StmtV::If(i), p)),
        }
    } else if is_kind(toks, pos, TokenKind::While) {
        match parse_while_spec(toks, pos) {
            Err(e) => Err(e),
            Ok((w, p)) => Ok((StmtV::While(w), p)),
        }
    } else if is_kind(toks, pos, TokenKind::For) {
        match parse_for_spec(toks, pos) {
            Err(e) => Err(e),
            Ok((f, p)) => Ok((StmtV::For(f), p)),
        }
    } else if is_kind(toks, pos, TokenKind::Return) {
        parse_return_spec(toks, pos)
    } else if is_kind(toks, pos, TokenKind::Break) || is_kind(toks, pos, TokenKind::Continue) {
        let p1 = adv_pos(toks, pos);
        match stmt_end(toks, p1) {
            Err(e) => Err(e),
            Ok(p2) => Ok((if is_kind(toks, pos, TokenKind::Break) { StmtV::Break { line } } else { StmtV::Continue { line } }, p2)),
        }
    } else {
        match parse_assign_spec(toks, pos) {
            Err(e) => Err(e),
            Ok((e, p1)) => if !inb(toks, pos, p1) { Err(err_at(toks, pos)) } else {
                match stmt_end(toks, p1) {
                    Err(x) => Err(x),
                    Ok(p2) => Ok((StmtV::Expr(e), p2)),
                }
            },
        }
    }
}

/// The statements of a program from `pos`, after those in `acc`.
pub open spec fn program_rest_spec(toks: Seq<TokenView>, pos: int, acc: Seq<StmtV>) -> Result<Seq<StmtV>, ParseErrorV>
    decreases toks.len() - pos, 70int when 0 <= pos < toks.len()
{
    if at_end(toks, pos) {
        Ok(acc)
    } else {
        match parse_stmt_spec(toks, pos) {
            Err(e) => Err(e),
            Ok((st, p1)) => if !fwd(toks, pos, p1) { Err(err_at(toks, pos)) } else {
                let p2 = skip_nl(toks, p1);
                if !fwd(toks, pos, p2) { Err(err_at(toks, pos)) } else {
                    program_rest_spec(toks, p2, acc.push(st))
                }
            },
        }
    }
}

/// `program = { statement }`: the statements of a token stream, or the position of the
/// first syntax error.
pub open spec fn spec_parse_program(toks: Seq<TokenView>) -> Result<Seq<StmtV>, ParseErrorV> {
    program_rest_spec(toks, skip_nl(toks, 0), Seq::empty())
}

} // verus!
