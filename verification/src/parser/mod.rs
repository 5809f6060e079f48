//! Recursive-descent parser: tokens to syntax tree, following `grammar`.

pub mod assignments;
pub mod ast;
pub mod grammar;
pub mod targets;

use vstd::prelude::*;

use crate::lexer::token::{is_unit_kind, kind_tag, tokens_view, KindView, Token, TokenKind, TokenView};
use crate::parser::ast::{
    base_view, expr_view, exprs_view, field_view, fields_view, func_view, funcs_view, branches_view,
    is_lvalue_spec, param_view, params_view, program_view, stmt_view, stmts_view, type_view, AssignOp,
    BaseType, BaseTypeV, BinaryOp, ClassDecl, Expr, ExprV, FieldDecl, FieldDeclV, ForStmt, FuncDecl,
    FuncDeclV, IfStmt, Param, ParamV, Program, Stmt, StmtV, TypeAnnotation, TypeV, UnaryOp, VarDecl,
    VarKind, WhileStmt, WhileStmtV, ClassDeclV, IfStmtV,
};
use crate::parser::grammar::{
    adv_pos, assign_op, at_end, binary_op, binary_rest_spec, err_at, err_msg, expect_ident_spec, expect_spec, kind_what, kind_debug_text, ParseErrorV,
    fwd, inb, is_kind, kind_at, list_rest_spec, literal, match_spec, parse_args_spec, parse_assign_spec,
    parse_binary_spec, parse_expr_spec, parse_list_spec, parse_postfix_spec, parse_primary_spec,
    parse_type_spec, parse_unary_spec, postfix_rest_spec, prim_type, skip_nl, stmt_end, toks_ok,
    type_suffix, unary_op, block_body_spec, class_body_spec, elif_spec, parse_block_spec,
    parse_class_spec, parse_field_spec, parse_for_spec, parse_func_spec, parse_if_spec,
    parse_param_spec, parse_params_spec, params_rest_spec, parse_return_spec, parse_stmt_spec,
    parse_var_spec, parse_while_spec, program_rest_spec, lemma_parse_stmt_unfold, lemma_parse_func_unfold,
    lemma_parse_block_unfold, lemma_parse_class_unfold,
};
use crate::text::{decimal, push_str, text, usize_text};

verus! {

#[derive(Debug, Clone)]
pub struct ParseError {
    pub message: String,
    pub line: usize,
    pub col: usize,
}

impl ParseError {
    /// The report of this error: `Parse error at <line>:<col>: <message>`.
    pub fn to_string(&self) -> (s: String)
        ensures
            s@ == "Parse error at "@ + decimal(self.line as nat) + ":"@ + decimal(self.col as nat)
                + ": "@ + self.message@,
    {
        let mut s = text("Parse error at ");
        push_str(&mut s, usize_text(self.line).as_str());
        push_str(&mut s, ":");
        push_str(&mut s, usize_text(self.col).as_str());
        push_str(&mut s, ": ");
        push_str(&mut s, self.message.as_str());
        s
    }
}

/// Whether an error carries the position `e`.
pub open spec fn err_is(r: ParseError, e: ParseErrorV) -> bool {
    &&& r.line == e.line
    &&& r.col == e.col
    &&& (e.message matches Some(m) ==> r.message@ == m)
}

pub struct Parser {
    tokens: Vec<Token>,
    pos: usize,
}

impl Parser {
    pub closed spec fn toks(&self) -> Seq<TokenView> {
        tokens_view(self.tokens@)
    }

    pub closed spec fn at(&self) -> int {
        self.pos as int
    }

    pub closed spec fn wf(&self) -> bool {
        &&& toks_ok(self.toks())
        &&& self.pos < self.tokens.len()
    }

    pub fn new(tokens: Vec<Token>) -> (p: Self)
        requires
            toks_ok(tokens_view(tokens@)),
        ensures
            p.wf(),
            p.toks() == tokens_view(tokens@),
            p.at() == 0,
    {
        Parser { tokens, pos: 0 }
    }

    proof fn lemma_not_last(&self)
        requires
            self.wf(),
            !at_end(self.toks(), self.at()),
        ensures
            self.pos + 1 < self.tokens.len(),
    {
        if self.pos + 1 == self.tokens.len() {
            assert(self.toks().last() == self.toks()[self.at()]);
        }
    }

    fn check(&self, k: TokenKind) -> (r: bool)
        requires
            self.wf(),
            is_unit_kind(k),
        ensures
            r == is_kind(self.toks(), self.at(), k),
    {
        self.tokens[self.pos].kind.tag() == k.tag()
    }

    fn is_at_end(&self) -> (r: bool)
        requires
            self.wf(),
        ensures
            r == at_end(self.toks(), self.at()),
    {
        self.check(TokenKind::Eof)
    }

    fn current_line(&self) -> (l: usize)
        requires
            self.wf(),
        ensures
            l == self.toks()[self.at()].line,
    {
        self.tokens[self.pos].line
    }

    fn err_here(&self, msg: String) -> (e: ParseError)
        requires
            self.wf(),
        ensures
            err_is(e, err_at(self.toks(), self.at())),
            err_is(e, err_msg(self.toks(), self.at(), msg@)),
    {
        ParseError { message: msg, line: self.tokens[self.pos].line, col: self.tokens[self.pos].col }
    }

    fn advance(&mut self) -> (t: Token)
        requires
            old(self).wf(),
        ensures
            final(self).wf(),
            final(self).toks() == old(self).toks(),
            final(self).at() == adv_pos(old(self).toks(), old(self).at()),
            t@ == old(self).toks()[old(self).at()],
    {
        let t = self.tokens[self.pos].duplicate();
        if !self.is_at_end() {
            proof { self.lemma_not_last(); }
            self.pos += 1;
        }
        t
    }

    fn match_kind(&mut self, k: TokenKind) -> (r: bool)
        requires
            old(self).wf(),
            is_unit_kind(k),
        ensures
            final(self).wf(),
            final(self).toks() == old(self).toks(),
            (r, final(self).at()) == match_spec(old(self).toks(), old(self).at(), k),
    {
        if self.check(k) {
            self.advance();
            true
        } else {
            false
        }
    }

    fn expect(&mut self, k: TokenKind, what: &str) -> (r: Result<(), ParseError>)
        requires
            old(self).wf(),
            is_unit_kind(k),
            kind_what(k) matches Some(w) ==> what@ == w,
        ensures
            final(self).wf(),
            final(self).toks() == old(self).toks(),
            match expect_spec(old(self).toks(), old(self).at(), k) {
                Ok(p) => r is Ok && final(self).at() == p,
                Err(e) => r matches Err(x) && err_is(x, e),
            },
    {
        if self.check(k) {
            self.advance();
            Ok(())
        } else {
            let mut msg = text(what);
            push_str(&mut msg, "를(을) 기대했지만 ");
            push_str(&mut msg, self.tokens[self.pos].kind.debug_text().as_str());
            push_str(&mut msg, "를 발견했습니다");
            Err(self.err_here(msg))
        }
    }

    fn expect_ident(&mut self, what: &str) -> (r: Result<String, ParseError>)
        requires
            old(self).wf(),
        ensures
            final(self).wf(),
            final(self).toks() == old(self).toks(),
            match expect_ident_spec(old(self).toks(), old(self).at(), what@) {
                Ok((s, p)) => r matches Ok(x) && x@ == s && final(self).at() == p,
                Err(e) => r matches Err(x) && err_is(x, e),
            },
    {
        let name = match &self.tokens[self.pos].kind {
            TokenKind::Ident(s) => s.clone(),
            _ => {
                let mut msg = text(what);
                push_str(&mut msg, "를(을) 기대했습니다");
                return Err(self.err_here(msg));
            },
        };
        self.advance();
        Ok(name)
    }

    fn skip_newlines(&mut self)
        requires
            old(self).wf(),
        ensures
            final(self).wf(),
            final(self).toks() == old(self).toks(),
            final(self).at() == skip_nl(old(self).toks(), old(self).at()),
            final(self).at() >= old(self).at(),
    {
        let ghost t = self.toks();
        let ghost p0 = self.at();
        while self.check(TokenKind::Newline)
            invariant
                self.wf(),
                self.toks() == t,
                t == old(self).toks(),
                p0 == old(self).at(),
                p0 <= self.at(),
                skip_nl(t, self.at()) == skip_nl(t, p0),
            decreases self.tokens.len() - self.pos,
        {
            proof { self.lemma_not_last(); }
            self.advance();
        }
    }

    fn expect_stmt_end(&mut self) -> (r: Result<(), ParseError>)
        requires
            old(self).wf(),
        ensures
            final(self).wf(),
            final(self).toks() == old(self).toks(),
            match stmt_end(old(self).toks(), old(self).at()) {
                Ok(p) => r is Ok && final(self).at() == p,
                Err(e) => r matches Err(x) && err_is(x, e),
            },
            final(self).at() >= old(self).at(),
    {
        if self.check(TokenKind::Semicolon) {
            self.advance();
            self.skip_newlines();
            Ok(())
        } else if self.check(TokenKind::Newline) || self.is_at_end() {
            self.skip_newlines();
            Ok(())
        } else {
            Err(self.err_here(text("줄바꿈(NEWLINE)을 기대했습니다")))
        }
    }
}


proof fn lemma_exprs_view_push(s: Seq<Expr>, e: Expr)
    ensures
        exprs_view(s.push(e)) == exprs_view(s).push(expr_view(e)),
{
    assert(s.push(e).drop_last() =~= s);
}

proof fn lemma_exprs_view_empty()
    ensures
        exprs_view(Seq::<Expr>::empty()) == Seq::<ExprV>::empty(),
{
}

impl Parser {
    fn parse_type(&mut self) -> (r: Result<TypeAnnotation, ParseError>)
        requires
            old(self).wf(),
        ensures
            final(self).wf(),
            final(self).toks() == old(self).toks(),
            match parse_type_spec(old(self).toks(), old(self).at()) {
                Ok((v, p)) => r matches Ok(x) && type_view(x) == v && final(self).at() == p,
                Err(e) => r matches Err(x) && err_is(x, e),
            },
            r is Ok ==> old(self).at() < final(self).at(),
    {
        let ghost t = self.toks();
        let k = self.tokens[self.pos].kind.duplicate();
        let base0 = match k {
            TokenKind::TyI8 => BaseType::I8,
            TokenKind::TyI16 => BaseType::I16,
            TokenKind::TyI32 => BaseType::I32,
            TokenKind::TyI64 => BaseType::I64,
            TokenKind::TyU8 => BaseType::U8,
            TokenKind::TyU16 => BaseType::U16,
            TokenKind::TyU32 => BaseType::U32,
            TokenKind::TyU64 => BaseType::U64,
            TokenKind::TyF32 => BaseType::F32,
            TokenKind::TyF64 => BaseType::F64,
            TokenKind::TyBool => BaseType::Bool,
            TokenKind::TyStr => BaseType::Str,
            TokenKind::TyChar => BaseType::Char,
            TokenKind::TyVoid => BaseType::Void,
            TokenKind::Ident(name) => BaseType::Named(name),
            _ => return Err(self.err_here(text("타입 이름을 기대했습니다"))),
        };
        proof { self.lemma_not_last(); }
        self.advance();
        let ghost p1 = self.at();
        let ghost b0 = base_view(base0);
        let mut base = base0;
        while self.check(TokenKind::LBracket) && self.pos + 1 < self.tokens.len()
            && self.tokens[self.pos + 1].kind.tag() == TokenKind::RBracket.tag()
            invariant
                self.wf(),
                self.toks() == t,
                t == old(self).toks(),
                old(self).at() < p1 <= self.at(),
                type_suffix(t, self.at(), base_view(base)) == type_suffix(t, p1, b0),
            decreases self.tokens.len() - self.pos,
        {
            proof {
                assert(t[self.at() + 1] == self.tokens@[self.at() + 1]@);
                if self.pos + 2 >= self.tokens.len() {
                    assert(t.last() == t[self.at() + 1]);
                }
            }
            self.advance();
            self.advance();
            base = BaseType::Array(Box::new(base));
        }
        let nullable = self.match_kind(TokenKind::Question);
        Ok(TypeAnnotation { base, nullable })
    }

    fn assign_op_here(&self) -> (r: Option<AssignOp>)
        requires
            self.wf(),
        ensures
            r == assign_op(kind_at(self.toks(), self.at())),
    {
        match self.tokens[self.pos].kind {
            TokenKind::Assign => Some(AssignOp::Assign),
            TokenKind::PlusAssign => Some(AssignOp::AddAssign),
            TokenKind::MinusAssign => Some(AssignOp::SubAssign),
            TokenKind::StarAssign => Some(AssignOp::MulAssign),
            TokenKind::SlashAssign => Some(AssignOp::DivAssign),
            _ => None,
        }
    }

    fn binary_op_here(&self, level: u8) -> (r: Option<BinaryOp>)
        requires
            self.wf(),
            level <= 5,
        ensures
            r == binary_op(level as int, kind_at(self.toks(), self.at())),
    {
        match self.tokens[self.pos].kind {
            TokenKind::Or => if level == 0 { Some(BinaryOp::Or) } else { None },
            TokenKind::And => if level == 1 { Some(BinaryOp::And) } else { None },
            TokenKind::Eq => if level == 2 { Some(BinaryOp::Eq) } else { None },
            TokenKind::NotEq => if level == 2 { Some(BinaryOp::NotEq) } else { None },
            TokenKind::Lt => if level == 3 { Some(BinaryOp::Lt) } else { None },
            TokenKind::LtEq => if level == 3 { Some(BinaryOp::LtEq) } else { None },
            TokenKind::Gt => if level == 3 { Some(BinaryOp::Gt) } else { None },
            TokenKind::GtEq => if level == 3 { Some(BinaryOp::GtEq) } else { None },
            TokenKind::Plus => if level == 4 { Some(BinaryOp::Add) } else { None },
            TokenKind::Minus => if level == 4 { Some(BinaryOp::Sub) } else { None },
            TokenKind::Star => if level == 5 { Some(BinaryOp::Mul) } else { None },
            TokenKind::Slash => if level == 5 { Some(BinaryOp::Div) } else { None },
            TokenKind::Percent => if level == 5 { Some(BinaryOp::Mod) } else { None },
            _ => None,
        }
    }

    fn unary_op_here(&self) -> (r: Option<UnaryOp>)
        requires
            self.wf(),
        ensures
            r == unary_op(kind_at(self.toks(), self.at())),
    {
        match self.tokens[self.pos].kind {
            TokenKind::Not => Some(UnaryOp::Not),
            TokenKind::Bang => Some(UnaryOp::Not),
            TokenKind::Minus => Some(UnaryOp::Neg),
            _ => None,
        }
    }

    /// `expr = logic_or`: an expression (an assignment is a statement).
    fn parse_expr(&mut self) -> (r: Result<Expr, ParseError>)
        requires
            old(self).wf(),
        ensures
            final(self).wf(),
            final(self).toks() == old(self).toks(),
            match parse_expr_spec(old(self).toks(), old(self).at()) {
                Ok((v, p)) => r matches Ok(x) && expr_view(x) == v && final(self).at() == p,
                Err(e) => r matches Err(x) && err_is(x, e),
            },
            r is Ok ==> old(self).at() < final(self).at(),
        decreases old(self).tokens@.len() - old(self).pos, 30int,
    {
        self.parse_binary(0)
    }

    /// The expression of an expression statement: an expression, or an assignment
    /// whose target is a variable, field or element and whose value is an expression.
    fn parse_assign(&mut self) -> (r: Result<Expr, ParseError>)
        requires
            old(self).wf(),
        ensures
            final(self).wf(),
            final(self).toks() == old(self).toks(),
            match parse_assign_spec(old(self).toks(), old(self).at()) {
                Ok((v, p)) => r matches Ok(x) && expr_view(x) == v && final(self).at() == p,
                Err(e) => r matches Err(x) && err_is(x, e),
            },
            r is Ok ==> old(self).at() < final(self).at(),
    {
        let line = self.current_line();
        let lhs = self.parse_binary(0)?;
        match self.assign_op_here() {
            None => Ok(lhs),
            Some(op) => {
                if !lhs.is_lvalue() {
                    return Err(self.err_here(text("대입 연산자의 좌변은 변수, 필드 또는 인덱스 표현식이어야 합니다")));
                }
                self.advance();
                let value = self.parse_binary(0)?;
                Ok(Expr::Assign { op, target: Box::new(lhs), value: Box::new(value), line })
            },
        }
    }

    /// A left-associative chain of binary operators: level 0 `or`, 1 `and`, 2 equality,
    /// 3 comparison, 4 additive, 5 multiplicative.
    fn parse_binary(&mut self, level: u8) -> (r: Result<Expr, ParseError>)
        requires
            old(self).wf(),
            level <= 5,
        ensures
            final(self).wf(),
            final(self).toks() == old(self).toks(),
            match parse_binary_spec(old(self).toks(), old(self).at(), level as int) {
                Ok((v, p)) => r matches Ok(x) && expr_view(x) == v && final(self).at() == p,
                Err(e) => r matches Err(x) && err_is(x, e),
            },
            r is Ok ==> old(self).at() < final(self).at(),
        decreases old(self).tokens@.len() - old(self).pos, 20 - 2 * level,
    {
        let ghost t = self.toks();
        let ghost p0 = self.at();
        let first = if level < 5 { self.parse_binary(level + 1) } else { self.parse_unary() };
        let mut lhs = first?;
        let ghost p1 = self.at();
        let ghost l0 = expr_view(lhs);
        loop
            invariant
                self.wf(),
                self.toks() == t,
                t == old(self).toks(),
                p0 == old(self).at(),
                p0 < p1 <= self.at(),
                level <= 5,
                parse_binary_spec(t, p0, level as int) == binary_rest_spec(t, p1, level as int, l0),
                binary_rest_spec(t, self.at(), level as int, expr_view(lhs)) == binary_rest_spec(t, p1, level as int, l0),
            decreases self.tokens.len() - self.pos,
        {
            match self.binary_op_here(level) {
                None => return Ok(lhs),
                Some(op) => {
                    let line = self.current_line();
                    self.advance();
                    let operand = if level < 5 { self.parse_binary(level + 1) } else { self.parse_unary() };
                    let rhs = operand?;
                    lhs = Expr::Binary { op, lhs: Box::new(lhs), rhs: Box::new(rhs), line };
                },
            }
        }
    }

    /// `unary = [ "not" | "-" | "!" ] unary | postfix`
    fn parse_unary(&mut self) -> (r: Result<Expr, ParseError>)
        requires
            old(self).wf(),
        ensures
            final(self).wf(),
            final(self).toks() == old(self).toks(),
            match parse_unary_spec(old(self).toks(), old(self).at()) {
                Ok((v, p)) => r matches Ok(x) && expr_view(x) == v && final(self).at() == p,
                Err(e) => r matches Err(x) && err_is(x, e),
            },
            r is Ok ==> old(self).at() < final(self).at(),
        decreases old(self).tokens@.len() - old(self).pos, 8int,
    {
        let line = self.current_line();
        match self.unary_op_here() {
            Some(op) => {
                self.advance();
                let e = self.parse_unary()?;
                Ok(Expr::Unary { op, expr: Box::new(e), line })
            },
            None => self.parse_postfix(),
        }
    }

    /// `postfix = primary { "." ident | "(" args ")" | "[" expr "]" | "as" type }`
    fn parse_postfix(&mut self) -> (r: Result<Expr, ParseError>)
        requires
            old(self).wf(),
        ensures
            final(self).wf(),
            final(self).toks() == old(self).toks(),
            match parse_postfix_spec(old(self).toks(), old(self).at()) {
                Ok((v, p)) => r matches Ok(x) && expr_view(x) == v && final(self).at() == p,
                Err(e) => r matches Err(x) && err_is(x, e),
            },
            r is Ok ==> old(self).at() < final(self).at(),
        decreases old(self).tokens@.len() - old(self).pos, 7int,
    {
        let ghost t = self.toks();
        let ghost p0 = self.at();
        let mut expr = self.parse_primary()?;
        let ghost p1 = self.at();
        let ghost e0 = expr_view(expr);
        loop
            invariant
                self.wf(),
                self.toks() == t,
                t == old(self).toks(),
                p0 == old(self).at(),
                p0 < p1 <= self.at(),
                parse_postfix_spec(t, p0) == postfix_rest_spec(t, p1, e0),
                postfix_rest_spec(t, self.at(), expr_view(expr)) == postfix_rest_spec(t, p1, e0),
            decreases self.tokens.len() - self.pos,
        {
            let line = self.current_line();
            if self.check(TokenKind::Dot) {
                self.advance();
                let name = self.expect_ident("멤버 이름")?;
                expr = Expr::Member { object: Box::new(expr), name, line };
            } else if self.check(TokenKind::LParen) {
                self.advance();
                let args = self.parse_arg_list()?;
                self.expect(TokenKind::RParen, "')'")?;
                expr = Expr::Call { callee: Box::new(expr), args, line };
            } else if self.check(TokenKind::LBracket) {
                self.advance();
                let index = self.parse_expr()?;
                self.expect(TokenKind::RBracket, "']'")?;
                expr = Expr::Index { object: Box::new(expr), index: Box::new(index), line };
            } else if self.check(TokenKind::As) {
                self.advance();
                let ty = self.parse_type()?;
                expr = Expr::Cast { expr: Box::new(expr), ty, line };
            } else {
                return Ok(expr);
            }
        }
    }

    /// Call arguments up to (not including) the closing `)`.
    fn parse_arg_list(&mut self) -> (r: Result<Vec<Expr>, ParseError>)
        requires
            old(self).wf(),
        ensures
            final(self).wf(),
            final(self).toks() == old(self).toks(),
            match parse_args_spec(old(self).toks(), old(self).at()) {
                Ok((v, p)) => r matches Ok(x) && exprs_view(x@) == v && final(self).at() == p,
                Err(e) => r matches Err(x) && err_is(x, e),
            },
            r is Ok ==> old(self).at() <= final(self).at(),
        decreases old(self).tokens@.len() - old(self).pos, 40int,
    {
        if self.check(TokenKind::RParen) {
            let v: Vec<Expr> = Vec::new();
            proof { lemma_exprs_view_empty(); }
            return Ok(v);
        }
        self.parse_list()
    }

    /// `expr { "," expr }`
    fn parse_list(&mut self) -> (r: Result<Vec<Expr>, ParseError>)
        requires
            old(self).wf(),
        ensures
            final(self).wf(),
            final(self).toks() == old(self).toks(),
            match parse_list_spec(old(self).toks(), old(self).at()) {
                Ok((v, p)) => r matches Ok(x) && exprs_view(x@) == v && final(self).at() == p,
                Err(e) => r matches Err(x) && err_is(x, e),
            },
            r is Ok ==> old(self).at() < final(self).at(),
        decreases old(self).tokens@.len() - old(self).pos, 39int,
    {
        let ghost t = self.toks();
        let ghost p0 = self.at();
        let first = self.parse_expr()?;
        let mut items: Vec<Expr> = Vec::new();
        proof { lemma_exprs_view_push(items@, first); }
        items.push(first);
        let ghost p1 = self.at();
        let ghost i0 = exprs_view(items@);
        assert(i0 =~= seq![expr_view(first)]);
        while self.check(TokenKind::Comma)
            invariant
                self.wf(),
                self.toks() == t,
                t == old(self).toks(),
                p0 == old(self).at(),
                p0 < p1 <= self.at(),
                parse_list_spec(t, p0) == list_rest_spec(t, p1, i0),
                list_rest_spec(t, self.at(), exprs_view(items@)) == list_rest_spec(t, p1, i0),
            decreases self.tokens.len() - self.pos,
        {
            self.advance();
            let e = self.parse_expr()?;
            proof { lemma_exprs_view_push(items@, e); }
            items.push(e);
        }
        Ok(items)
    }

    /// `primary = literal | "null" | "self" | ident | "new" ident "(" args ")" | "(" expr ")" | "[" [list] "]"`
    fn parse_primary(&mut self) -> (r: Result<Expr, ParseError>)
        requires
            old(self).wf(),
        ensures
            final(self).wf(),
            final(self).toks() == old(self).toks(),
            match parse_primary_spec(old(self).toks(), old(self).at()) {
                Ok((v, p)) => r matches Ok(x) && expr_view(x) == v && final(self).at() == p,
                Err(e) => r matches Err(x) && err_is(x, e),
            },
            r is Ok ==> old(self).at() < final(self).at(),
        decreases old(self).tokens@.len() - old(self).pos, 5int,
    {
        let line = self.current_line();
        let k = self.tokens[self.pos].kind.duplicate();
        match k {
            TokenKind::IntLit(v) => {
                self.advance();
                Ok(Expr::IntLit(v))
            },
            TokenKind::FloatLit(s) => {
                self.advance();
                Ok(Expr::FloatLit(s))
            },
            TokenKind::StringLit(s) => {
                self.advance();
                Ok(Expr::StringLit(s))
            },
            TokenKind::CharLit(c) => {
                self.advance();
                Ok(Expr::CharLit(c))
            },
            TokenKind::BoolLit(b) => {
                self.advance();
                Ok(Expr::BoolLit(b))
            },
            TokenKind::Null => {
                self.advance();
                Ok(Expr::Null)
            },
            TokenKind::SelfKw => {
                self.advance();
                Ok(Expr::SelfExpr)
            },
            TokenKind::Ident(name) => {
                self.advance();
                Ok(Expr::Ident(name))
            },
            TokenKind::New => {
                self.advance();
                let class_name = self.expect_ident("클래스 이름")?;
                self.expect(TokenKind::LParen, "'('")?;
                let args = self.parse_arg_list()?;
                self.expect(TokenKind::RParen, "')'")?;
                Ok(Expr::New { class_name, args, line })
            },
            TokenKind::LParen => {
                self.advance();
                let inner = self.parse_expr()?;
                self.expect(TokenKind::RParen, "')'")?;
                Ok(Expr::Grouping(Box::new(inner)))
            },
            TokenKind::LBracket => {
                self.advance();
                let elements = if self.check(TokenKind::RBracket) {
                    proof { lemma_exprs_view_empty(); }
                    Vec::new()
                } else {
                    self.parse_list()?
                };
                self.expect(TokenKind::RBracket, "']'")?;
                Ok(Expr::ArrayLit { elements, line })
            },
            _ => {
                let mut msg = text("표현식을 기대했지만 ");
                push_str(&mut msg, self.tokens[self.pos].kind.debug_text().as_str());
                push_str(&mut msg, "를 발견했습니다");
                Err(ParseError { message: msg, line, col: self.tokens[self.pos].col })
            },
        }
    }
}


proof fn lemma_stmts_view_push(s: Seq<Stmt>, e: Stmt)
    ensures
        stmts_view(s.push(e)) == stmts_view(s).push(stmt_view(e)),
{
    assert(s.push(e).drop_last() =~= s);
}

proof fn lemma_funcs_view_push(s: Seq<FuncDecl>, e: FuncDecl)
    ensures
        funcs_view(s.push(e)) == funcs_view(s).push(func_view(e)),
{
    assert(s.push(e).drop_last() =~= s);
}

proof fn lemma_branches_view_push(s: Seq<(Expr, Vec<Stmt>)>, e: (Expr, Vec<Stmt>))
    ensures
        branches_view(s.push(e)) == branches_view(s).push((expr_view(e.0), stmts_view(e.1@))),
{
    assert(s.push(e).drop_last() =~= s);
}

proof fn lemma_params_view_push(s: Seq<Param>, e: Param)
    ensures
        params_view(s.push(e)) == params_view(s).push(param_view(e)),
{
    assert(params_view(s.push(e)) =~= params_view(s).push(param_view(e)));
}

proof fn lemma_fields_view_push(s: Seq<FieldDecl>, e: FieldDecl)
    ensures
        fields_view(s.push(e)) == fields_view(s).push(field_view(e)),
{
    assert(fields_view(s.push(e)) =~= fields_view(s).push(field_view(e)));
}

impl Parser {
    fn parse_param(&mut self) -> (r: Result<Param, ParseError>)
        requires
            old(self).wf(),
        ensures
            final(self).wf(),
            final(self).toks() == old(self).toks(),
            match parse_param_spec(old(self).toks(), old(self).at()) {
                Ok((v, p)) => r matches Ok(x) && param_view(x) == v && final(self).at() == p,
                Err(e) => r matches Err(x) && err_is(x, e),
            },
            r is Ok ==> old(self).at() < final(self).at(),
    {
        let name = self.expect_ident("매개변수 이름")?;
        self.expect(TokenKind::Colon, "':'")?;
        let ty = self.parse_type()?;
        Ok(Param { name, ty })
    }

    fn parse_param_list(&mut self) -> (r: Result<Vec<Param>, ParseError>)
        requires
            old(self).wf(),
        ensures
            final(self).wf(),
            final(self).toks() == old(self).toks(),
            match parse_params_spec(old(self).toks(), old(self).at()) {
                Ok((v, p)) => r matches Ok(x) && params_view(x@) == v && final(self).at() == p,
                Err(e) => r matches Err(x) && err_is(x, e),
            },
            r is Ok ==> old(self).at() < final(self).at(),
    {
        let ghost t = self.toks();
        let ghost p0 = self.at();
        let first = self.parse_param()?;
        let mut params: Vec<Param> = Vec::new();
        proof { lemma_params_view_push(params@, first); }
        params.push(first);
        let ghost p1 = self.at();
        let ghost i0 = params_view(params@);
        assert(i0 =~= seq![param_view(first)]);
        while self.match_kind(TokenKind::Comma)
            invariant
                self.wf(),
                self.toks() == t,
                t == old(self).toks(),
                p0 == old(self).at(),
                p0 < p1 <= self.at(),
                parse_params_spec(t, p0) == params_rest_spec(t, p1, i0),
                params_rest_spec(t, self.at(), params_view(params@)) == params_rest_spec(t, p1, i0),
            decreases self.tokens.len() - self.pos,
        {
            let p = self.parse_param()?;
            proof { lemma_params_view_push(params@, p); }
            params.push(p);
        }
        Ok(params)
    }

    /// `block = NEWLINE INDENT { statement } DEDENT`
    fn parse_block(&mut self) -> (r: Result<Vec<Stmt>, ParseError>)
        requires
            old(self).wf(),
        ensures
            final(self).wf(),
            final(self).toks() == old(self).toks(),
            match parse_block_spec(old(self).toks(), old(self).at()) {
                Ok((v, p)) => r matches Ok(x) && stmts_view(x@) == v && final(self).at() == p,
                Err(e) => r matches Err(x) && err_is(x, e),
            },
            r is Ok ==> old(self).at() < final(self).at(),
        decreases old(self).tokens@.len() - old(self).pos, 55int,
    {
        proof { lemma_parse_block_unfold(old(self).toks(), old(self).at()); }
        let ghost t = self.toks();
        let ghost p0 = self.at();
        self.expect(TokenKind::Newline, "블록 시작 줄바꿈")?;
        self.expect(TokenKind::Indent, "들여쓰기")?;
        let ghost p2 = self.at();
        assert(fwd(t, p0, p2));
        let mut stmts: Vec<Stmt> = Vec::new();
        assert(stmts_view(stmts@) =~= Seq::<StmtV>::empty());
        while !self.check(TokenKind::Dedent) && !self.is_at_end()
            invariant
                self.wf(),
                self.toks() == t,
                t == old(self).toks(),
                p0 == old(self).at(),
                p0 < p2 <= self.at(),
                block_body_spec(t, self.at(), stmts_view(stmts@)) == block_body_spec(t, p2, Seq::empty()),
                block_body_spec(t, p2, Seq::empty()) matches Err(e) ==> parse_block_spec(t, p0) == Err::<(Seq<StmtV>, int), ParseErrorV>(e),
            decreases self.tokens.len() - self.pos,
        {
            let s = self.parse_stmt()?;
            proof { lemma_stmts_view_push(stmts@, s); }
            stmts.push(s);
        }
        self.expect(TokenKind::Dedent, "들여쓰기 해제")?;
        Ok(stmts)
    }

    /// A function or method declaration; `self` is allowed when `allow_self`.
    fn parse_func_decl(&mut self, allow_self: bool) -> (r: Result<FuncDecl, ParseError>)
        requires
            old(self).wf(),
        ensures
            final(self).wf(),
            final(self).toks() == old(self).toks(),
            match parse_func_spec(old(self).toks(), old(self).at(), allow_self) {
                Ok((v, p)) => r matches Ok(x) && func_view(x) == v && final(self).at() == p,
                Err(e) => r matches Err(x) && err_is(x, e),
            },
            r is Ok ==> old(self).at() < final(self).at(),
        decreases old(self).tokens@.len() - old(self).pos, 50int,
    {
        proof { lemma_parse_func_unfold(old(self).toks(), old(self).at(), allow_self); }
        let line = self.current_line();
        self.expect(TokenKind::Fn, "'fn'")?;
        let name = self.expect_ident("함수 이름")?;
        self.expect(TokenKind::LParen, "'('")?;
        let mut has_self = false;
        let mut params: Vec<Param> = Vec::new();
        assert(params_view(params@) =~= Seq::<ParamV>::empty());
        if !self.check(TokenKind::RParen) {
            if allow_self && self.check(TokenKind::SelfKw) {
                self.advance();
                has_self = true;
                if self.match_kind(TokenKind::Comma) {
                    params = self.parse_param_list()?;
                }
            } else {
                params = self.parse_param_list()?;
            }
        }
        self.expect(TokenKind::RParen, "')'")?;
        let ret_ty = if self.match_kind(TokenKind::Arrow) {
            Some(self.parse_type()?)
        } else {
            None
        };
        self.expect(TokenKind::Colon, "':'")?;
        let body = self.parse_block()?;
        Ok(FuncDecl { name, has_self, is_pub: false, params, ret_ty, body, line })
    }

    fn parse_field_decl(&mut self, is_pub: bool) -> (r: Result<FieldDecl, ParseError>)
        requires
            old(self).wf(),
        ensures
            final(self).wf(),
            final(self).toks() == old(self).toks(),
            match parse_field_spec(old(self).toks(), old(self).at(), is_pub) {
                Ok((v, p)) => r matches Ok(x) && field_view(x) == v && final(self).at() == p,
                Err(e) => r matches Err(x) && err_is(x, e),
            },
            r is Ok ==> old(self).at() < final(self).at(),
    {
        let line = self.current_line();
        let name = self.expect_ident("필드 이름")?;
        self.expect(TokenKind::Colon, "':'")?;
        let ty = self.parse_type()?;
        self.expect_stmt_end()?;
        Ok(FieldDecl { name, ty, is_pub, line })
    }

    fn parse_class_decl(&mut self) -> (r: Result<ClassDecl, ParseError>)
        requires
            old(self).wf(),
        ensures
            final(self).wf(),
            final(self).toks() == old(self).toks(),
            match parse_class_spec(old(self).toks(), old(self).at()) {
                Ok((v, p)) => r matches Ok(x) && stmt_view(Stmt::ClassDecl(x)) == StmtV::ClassDecl(v) && final(self).at() == p,
                Err(e) => r matches Err(x) && err_is(x, e),
            },
            r is Ok ==> old(self).at() < final(self).at(),
        decreases old(self).tokens@.len() - old(self).pos, 50int,
    {
        proof { lemma_parse_class_unfold(old(self).toks(), old(self).at()); }
        let ghost t = self.toks();
        let ghost p0 = self.at();
        let line = self.current_line();
        self.expect(TokenKind::Class, "'class'")?;
        let name = self.expect_ident("클래스 이름")?;
        let superclass = if self.match_kind(TokenKind::LParen) {
            let sup = self.expect_ident("상위 클래스 이름")?;
            self.expect(TokenKind::RParen, "')'")?;
            Some(sup)
        } else {
            None
        };
        self.expect(TokenKind::Colon, "':'")?;
        self.expect(TokenKind::Newline, "줄바꿈")?;
        self.expect(TokenKind::Indent, "들여쓰기")?;
        let ghost p6 = self.at();
        assert(fwd(t, p0, p6));
        let mut fields: Vec<FieldDecl> = Vec::new();
        let mut methods: Vec<FuncDecl> = Vec::new();
        assert(fields_view(fields@) =~= Seq::<FieldDeclV>::empty());
        assert(funcs_view(methods@) =~= Seq::<FuncDeclV>::empty());
        while !self.check(TokenKind::Dedent) && !self.is_at_end()
            invariant
                self.wf(),
                self.toks() == t,
                t == old(self).toks(),
                p0 == old(self).at(),
                p0 < p6 <= self.at(),
                class_body_spec(t, self.at(), fields_view(fields@), funcs_view(methods@))
                    == class_body_spec(t, p6, Seq::empty(), Seq::empty()),
                class_body_spec(t, p6, Seq::empty(), Seq::empty()) matches Err(e)
                    ==> parse_class_spec(t, p0) == Err::<(ClassDeclV, int), ParseErrorV>(e),
            decreases self.tokens.len() - self.pos,
        {
            let is_pub = self.match_kind(TokenKind::Pub);
            if !is_pub {
                self.match_kind(TokenKind::Priv);
            }
            if self.check(TokenKind::Fn) {
                let mut f = self.parse_func_decl(true)?;
                f.is_pub = is_pub;
                proof { lemma_funcs_view_push(methods@, f); }
                methods.push(f);
            } else {
                let fd = self.parse_field_decl(is_pub)?;
                proof { lemma_fields_view_push(fields@, fd); }
                fields.push(fd);
            }
        }
        self.expect(TokenKind::Dedent, "들여쓰기 해제")?;
        Ok(ClassDecl { name, superclass, fields, methods, line })
    }

    fn parse_var_decl(&mut self) -> (r: Result<VarDecl, ParseError>)
        requires
            old(self).wf(),
        ensures
            final(self).wf(),
            final(self).toks() == old(self).toks(),
            match parse_var_spec(old(self).toks(), old(self).at()) {
                Ok((v, p)) => r matches Ok(x) && stmt_view(Stmt::VarDecl(x)) == StmtV::VarDecl(v) && final(self).at() == p,
                Err(e) => r matches Err(x) && err_is(x, e),
            },
            r is Ok ==> old(self).at() < final(self).at(),
        decreases old(self).tokens@.len() - old(self).pos, 50int,
    {
        let line = self.current_line();
        let kind = match self.advance().kind {
            TokenKind::Let => VarKind::Let,
            TokenKind::Var => VarKind::Var,
            _ => VarKind::Const,
        };
        let name = self.expect_ident("변수 이름")?;
        let ty = if self.match_kind(TokenKind::Colon) {
            Some(self.parse_type()?)
        } else {
            None
        };
        self.expect(TokenKind::Assign, "'='")?;
        let value = self.parse_expr()?;
        self.expect_stmt_end()?;
        Ok(VarDecl { kind, name, ty, value, line })
    }

    fn parse_if_stmt(&mut self) -> (r: Result<IfStmt, ParseError>)
        requires
            old(self).wf(),
        ensures
            final(self).wf(),
            final(self).toks() == old(self).toks(),
            match parse_if_spec(old(self).toks(), old(self).at()) {
                Ok((v, p)) => r matches Ok(x) && stmt_view(Stmt::If(x)) == StmtV::If(v) && final(self).at() == p,
                Err(e) => r matches Err(x) && err_is(x, e),
            },
            r is Ok ==> old(self).at() < final(self).at(),
        decreases old(self).tokens@.len() - old(self).pos, 50int,
    {
        let ghost t = self.toks();
        let ghost p0 = self.at();
        let line = self.current_line();
        self.expect(TokenKind::If, "'if'")?;
        let mut branches: Vec<(Expr, Vec<Stmt>)> = Vec::new();
        let cond = self.parse_expr()?;
        self.expect(TokenKind::Colon, "':'")?;
        let body = self.parse_block()?;
        proof { lemma_branches_view_push(branches@, (cond, body)); }
        branches.push((cond, body));
        let ghost p4 = self.at();
        let ghost b0 = branches_view(branches@);
        assert(b0 =~= seq![(expr_view(cond), stmts_view(body@))]);
        while self.check(TokenKind::Elif)
            invariant
                self.wf(),
                self.toks() == t,
                t == old(self).toks(),
                p0 == old(self).at(),
                p0 < p4 <= self.at(),
                elif_spec(t, self.at(), branches_view(branches@)) == elif_spec(t, p4, b0),
                elif_spec(t, p4, b0) matches Err(e) ==> parse_if_spec(t, p0) == Err::<(IfStmtV, int), ParseErrorV>(e),
            decreases self.tokens.len() - self.pos,
        {
            self.advance();
            let c = self.parse_expr()?;
            self.expect(TokenKind::Colon, "':'")?;
            let b = self.parse_block()?;
            proof { lemma_branches_view_push(branches@, (c, b)); }
            branches.push((c, b));
        }
        let else_body = if self.match_kind(TokenKind::Else) {
            self.expect(TokenKind::Colon, "':'")?;
            Some(self.parse_block()?)
        } else {
            None
        };
        Ok(IfStmt { branches, else_body, line })
    }

    fn parse_while_stmt(&mut self) -> (r: Result<WhileStmt, ParseError>)
        requires
            old(self).wf(),
        ensures
            final(self).wf(),
            final(self).toks() == old(self).toks(),
            match parse_while_spec(old(self).toks(), old(self).at()) {
                Ok((v, p)) => r matches Ok(x) && stmt_view(Stmt::While(x)) == StmtV::While(v) && final(self).at() == p,
                Err(e) => r matches Err(x) && err_is(x, e),
            },
            r is Ok ==> old(self).at() < final(self).at(),
        decreases old(self).tokens@.len() - old(self).pos, 50int,
    {
        let ghost t = self.toks();
        let ghost p0 = self.at();
        let line = self.current_line();
        self.expect(TokenKind::While, "'while'")?;
        let ghost p1 = self.at();
        assert(expect_spec(t, p0, TokenKind::While) == Ok::<int, ParseErrorV>(p1));
        assert(fwd(t, p0, p1));
        let cond = self.parse_expr()?;
        let ghost p2 = self.at();
        assert(inb(t, p0, p2));
        self.expect(TokenKind::Colon, "':'")?;
        let ghost p3 = self.at();
        assert(fwd(t, p0, p3));
        assert(parse_expr_spec(t, p1) == Ok::<(ExprV, int), ParseErrorV>((expr_view(cond), p2)));
        assert(expect_spec(t, p2, TokenKind::Colon) == Ok::<int, ParseErrorV>(p3));
        assert(t[p0].line == line);
        let rb = self.parse_block();
        assert(parse_while_spec(t, p0) == match parse_block_spec(t, p3) {
            Err(e) => Err(e),
            Ok((body, p4)) => Ok((WhileStmtV { cond: expr_view(cond), body, line: line as int }, p4)),
        });
        let body = rb?;
        Ok(WhileStmt { cond, body, line })
    }

    fn parse_for_stmt(&mut self) -> (r: Result<ForStmt, ParseError>)
        requires
            old(self).wf(),
        ensures
            final(self).wf(),
            final(self).toks() == old(self).toks(),
            match parse_for_spec(old(self).toks(), old(self).at()) {
                Ok((v, p)) => r matches Ok(x) && stmt_view(Stmt::For(x)) == StmtV::For(v) && final(self).at() == p,
                Err(e) => r matches Err(x) && err_is(x, e),
            },
            r is Ok ==> old(self).at() < final(self).at(),
        decreases old(self).tokens@.len() - old(self).pos, 50int,
    {
        let line = self.current_line();
        self.expect(TokenKind::For, "'for'")?;
        let var_name = self.expect_ident("반복 변수 이름")?;
        self.expect(TokenKind::In, "'in'")?;
        let iter = self.parse_expr()?;
        self.expect(TokenKind::Colon, "':'")?;
        let body = self.parse_block()?;
        Ok(ForStmt { var_name, iter, body, line })
    }

    fn parse_return_stmt(&mut self) -> (r: Result<Stmt, ParseError>)
        requires
            old(self).wf(),
        ensures
            final(self).wf(),
            final(self).toks() == old(self).toks(),
            match parse_return_spec(old(self).toks(), old(self).at()) {
                Ok((v, p)) => r matches Ok(x) && stmt_view(x) == v && final(self).at() == p,
                Err(e) => r matches Err(x) && err_is(x, e),
            },
            r is Ok ==> old(self).at() < final(self).at(),
        decreases old(self).tokens@.len() - old(self).pos, 50int,
    {
        let line = self.current_line();
        self.expect(TokenKind::Return, "'return'")?;
        let value = if self.check(TokenKind::Newline) || self.is_at_end() {
            None
        } else {
            Some(self.parse_expr()?)
        };
        self.expect_stmt_end()?;
        Ok(Stmt::Return { value, line })
    }

    fn peek_is_fn_after_visibility(&self) -> (r: bool)
        requires
            self.wf(),
        ensures
            r == (self.at() + 1 < self.toks().len() && is_kind(self.toks(), self.at() + 1, TokenKind::Fn)),
    {
        self.pos + 1 < self.tokens.len() && self.tokens[self.pos + 1].kind.tag() == TokenKind::Fn.tag()
    }

    fn parse_stmt(&mut self) -> (r: Result<Stmt, ParseError>)
        requires
            old(self).wf(),
        ensures
            final(self).wf(),
            final(self).toks() == old(self).toks(),
            match parse_stmt_spec(old(self).toks(), old(self).at()) {
                Ok((v, p)) => r matches Ok(x) && stmt_view(x) == v && final(self).at() == p,
                Err(e) => r matches Err(x) && err_is(x, e),
            },
            r is Ok ==> old(self).at() < final(self).at(),
        decreases old(self).tokens@.len() - old(self).pos, 60int,
    {
        proof { lemma_parse_stmt_unfold(old(self).toks(), old(self).at()); }
        if self.check(TokenKind::Class) {
            let c = self.parse_class_decl()?;
            Ok(Stmt::ClassDecl(c))
        } else if self.check(TokenKind::Fn)
            || ((self.check(TokenKind::Pub) || self.check(TokenKind::Priv)) && self.peek_is_fn_after_visibility()) {
            let f = self.parse_func_decl(false)?;
            Ok(Stmt::FuncDecl(f))
        } else if self.check(TokenKind::Let) || self.check(TokenKind::Var) || self.check(TokenKind::Const) {
            let v = self.parse_var_decl()?;
            Ok(Stmt::VarDecl(v))
        } else if self.check(TokenKind::If) {
            let i = self.parse_if_stmt()?;
            Ok(Stmt::If(i))
        } else if self.check(TokenKind::While) {
            let w = self.parse_while_stmt()?;
            Ok(Stmt::While(w))
        } else if self.check(TokenKind::For) {
            let f = self.parse_for_stmt()?;
            Ok(Stmt::For(f))
        } else if self.check(TokenKind::Return) {
            self.parse_return_stmt()
        } else if self.check(TokenKind::Break) {
            let line = self.current_line();
            self.advance();
            self.expect_stmt_end()?;
            Ok(Stmt::Break { line })
        } else if self.check(TokenKind::Continue) {
            let line = self.current_line();
            self.advance();
            self.expect_stmt_end()?;
            Ok(Stmt::Continue { line })
        } else {
            let e = self.parse_assign()?;
            self.expect_stmt_end()?;
            Ok(Stmt::Expr(e))
        }
    }

    fn parse_top_level_stmt(&mut self) -> (r: Result<Stmt, ParseError>)
        requires
            old(self).wf(),
        ensures
            final(self).wf(),
            final(self).toks() == old(self).toks(),
            match parse_stmt_spec(old(self).toks(), old(self).at()) {
                Ok((v, p)) => r matches Ok(x) && stmt_view(x) == v && final(self).at() == p,
                Err(e) => r matches Err(x) && err_is(x, e),
            },
            r is Ok ==> old(self).at() < final(self).at(),
    {
        self.parse_stmt()
    }

    /// Parses the whole token stream into a program.
    pub fn parse_program(self) -> (r: Result<Program, ParseError>)
        requires
            self.wf(),
        ensures
            match program_rest_spec(self.toks(), skip_nl(self.toks(), self.at()), Seq::empty()) {
                Ok(v) => r matches Ok(p) && program_view(p) == v,
                Err(e) => r matches Err(x) && err_is(x, e),
            },
            self.at() == 0 ==> (r matches Ok(p) ==> crate::parser::targets::block_assigns_ok(program_view(p), 0)
                && crate::parser::targets::program_targets_ok(program_view(p))),
    {
        proof {
            crate::parser::assignments::lemma_parsed_assignments_are_statements(self.toks());
        }
        let ghost t = self.toks();
        let ghost p0 = self.at();
        let mut ps = self;
        ps.skip_newlines();
        let ghost p1 = ps.at();
        let mut items: Vec<Stmt> = Vec::new();
        assert(stmts_view(items@) =~= Seq::<StmtV>::empty());
        while !ps.is_at_end()
            invariant
                ps.wf(),
                ps.toks() == t,
                program_rest_spec(t, ps.at(), stmts_view(items@)) == program_rest_spec(t, p1, Seq::empty()),
                p1 == skip_nl(t, p0),
                t == self.toks(),
                p0 == self.at(),
            decreases ps.tokens.len() - ps.pos,
        {
            let s = ps.parse_top_level_stmt()?;
            proof { lemma_stmts_view_push(items@, s); }
            items.push(s);
            ps.skip_newlines();
        }
        Ok(Program { items })
    }
}

} // verus!
