//! Code for statements: blocks, declarations, `if`, loops and `return`.

use vstd::prelude::*;

use inkwell::basic_block::BasicBlock;
use inkwell::values::PointerValue;

use crate::codegen::env::{cg_define, cg_lookup, CgScopeV};
use crate::codegen::llvm;
use crate::codegen::llvm::{IntCmp, Op};
use crate::codegen::types::{has_llvm_type, sema_ty_to_llvm};
use crate::codegen::typing::{cg_plain, cg_plain_block, cg_plain_branches, cg_plain_cond, cg_plain_if, cg_plain_stmt, cg_type, var_decl_type};
use crate::codegen::{is_llvm_error, llvm_fail, sema_type_of, Codegen, CodegenError, FnCtx};
use crate::parser::ast::{
    branches_view, expr_view, opt_type_view, lemma_branches_view, lemma_stmts_view, stmt_view, stmts_view, Expr, ForStmt, IfStmt, Stmt,
    StmtV, VarDecl, WhileStmt, WhileStmtV, ForStmtV, IfStmtV,
};
use crate::sema::types::{nn, SemaType, Ty, TyV};
use crate::text::text;

verus! {

/// The scopes around the innermost one.
pub open spec fn outer_scopes<P>(env: Seq<CgScopeV<P>>) -> Seq<CgScopeV<P>> {
    env.take(env.len() - 1)
}

impl<'ctx> Codegen<'ctx> {
    /// Generates the statements of a block in order.
    pub(crate) fn gen_block(&self, stmts: &Vec<Stmt>, fx: &mut FnCtx<'ctx>, ret_ty: &SemaType) -> (r: Result<(), CodegenError>)
        requires
            self.wf(),
            old(fx).env@.len() >= 1,
        ensures
            r is Ok ==> final(fx).env@.len() == old(fx).env@.len() && final(fx).loops@ == old(fx).loops@,
            r is Ok ==> outer_scopes(final(fx).env@) == outer_scopes(old(fx).env@),
            cg_plain_block(self.classes@, self.funcs@, old(fx).env@, stmts_view(stmts@), 0, ret_ty@, old(fx).loops@.len() > 0)
                ==> (r is Ok || (r matches Err(e) && is_llvm_error(e))),
        decreases stmts_view(stmts@), 0nat,
    {
        proof {
            lemma_stmts_view(stmts@);
        }
        let ghost sv = stmts_view(stmts@);
        let mut i: usize = 0;
        while i < stmts.len()
            invariant
                i <= stmts.len(),
                self.wf(),
                sv == stmts_view(stmts@),
                sv.len() == stmts.len(),
                forall|k: int| 0 <= k < stmts.len() ==> #[trigger] sv[k] == stmt_view(stmts@[k]),
                fx.env@.len() == old(fx).env@.len(),
                outer_scopes(fx.env@) == outer_scopes(old(fx).env@),
                fx.loops@ == old(fx).loops@,
                old(fx).env@.len() >= 1,
                cg_plain_block(self.classes@, self.funcs@, old(fx).env@, sv, 0, ret_ty@, old(fx).loops@.len() > 0) ==> (fx.env@
                    == old(fx).env@ && cg_plain_block(
                    self.classes@,
                    self.funcs@,
                    old(fx).env@,
                    sv,
                    i as nat,
                    ret_ty@,
                    old(fx).loops@.len() > 0,
                )),
            decreases stmts.len() - i,
        {
            proof {
                assert(decreases_to!(sv => sv[i as int]));
            }
            let ghost plain = cg_plain_block(self.classes@, self.funcs@, old(fx).env@, sv, 0, ret_ty@, old(fx).loops@.len() > 0);
            proof {
                if plain {
                    assert(cg_plain_stmt(self.classes@, self.funcs@, old(fx).env@, sv[i as int], ret_ty@, old(fx).loops@.len() > 0));
                    assert(!(sv[i as int] is VarDecl));
                    assert(cg_plain_block(self.classes@, self.funcs@, old(fx).env@, sv, (i + 1) as nat, ret_ty@, old(fx).loops@.len() > 0));
                }
            }
            self.gen_stmt(&stmts[i], fx, ret_ty)?;
            i += 1;
        }
        Ok(())
    }

    /// Generates a block in a scope of its own.
    fn gen_scoped_block(&self, stmts: &Vec<Stmt>, fx: &mut FnCtx<'ctx>, ret_ty: &SemaType) -> (r: Result<(), CodegenError>)
        requires
            self.wf(),
            old(fx).env@.len() >= 1,
        ensures
            r is Ok ==> final(fx).env@ == old(fx).env@ && final(fx).loops@ == old(fx).loops@,
            cg_plain_block(
                self.classes@,
                self.funcs@,
                old(fx).env@.push(Seq::empty()),
                stmts_view(stmts@),
                0,
                ret_ty@,
                old(fx).loops@.len() > 0,
            ) ==> (r is Ok || (r matches Err(e) && is_llvm_error(e))),
        decreases stmts_view(stmts@), 1nat,
    {
        fx.env.push_scope();
        self.gen_block(stmts, fx, ret_ty)?;
        fx.env.pop_scope();
        Ok(())
    }

    /// Generates one statement. Nothing is generated after the current block has
    /// ended (after `return`, `break` or `continue`): that code cannot be reached.
    /// Scoping: a declaration binds its name in the innermost scope only, and any
    /// other statement leaves the variables in scope as they were (what a block
    /// declares is gone after it).
    fn gen_stmt(&self, stmt: &Stmt, fx: &mut FnCtx<'ctx>, ret_ty: &SemaType) -> (r: Result<(), CodegenError>)
        requires
            self.wf(),
            old(fx).env@.len() >= 1,
        ensures
            r is Ok ==> final(fx).env@.len() == old(fx).env@.len() && final(fx).loops@ == old(fx).loops@,
            r is Ok ==> outer_scopes(final(fx).env@) == outer_scopes(old(fx).env@),
            r is Ok && !(stmt_view(*stmt) is VarDecl) ==> final(fx).env@ == old(fx).env@,
            cg_plain_stmt(self.classes@, self.funcs@, old(fx).env@, stmt_view(*stmt), ret_ty@, old(fx).loops@.len() > 0) ==> (r is Ok || (r matches Err(e) && is_llvm_error(e))),
        decreases stmt_view(*stmt), 3nat,
    {
        if !self.block_open() {
            return Ok(());
        }
        match stmt {
            Stmt::VarDecl(vd) => self.gen_var_decl(vd, fx),
            Stmt::If(_) => self.gen_if(stmt, fx, ret_ty),
            Stmt::While(_) => self.gen_while(stmt, fx, ret_ty),
            Stmt::For(_) => match self.gen_for(stmt, fx, ret_ty) {
                Ok(_) => Ok(()),
                Err(e) => Err(e),
            },
            Stmt::Return { value, line } => self.gen_return(value, *line, ret_ty, fx),
            Stmt::Break { line } => {
                let n = fx.loops.len();
                if n == 0 {
                    return Err(CodegenError { message: text("루프 바깥에서 'break'를 사용할 수 없습니다"), line: *line });
                }
                let target = fx.loops[n - 1].1;
                if !llvm::br(&self.builder, target) {
                    return Err(llvm_fail(*line));
                }
                Ok(())
            },
            Stmt::Continue { line } => {
                let n = fx.loops.len();
                if n == 0 {
                    return Err(CodegenError { message: text("루프 바깥에서 'continue'를 사용할 수 없습니다"), line: *line });
                }
                let target = fx.loops[n - 1].0;
                if !llvm::br(&self.builder, target) {
                    return Err(llvm_fail(*line));
                }
                Ok(())
            },
            Stmt::Expr(e) => {
                self.gen_expr(e, fx)?;
                Ok(())
            },
            Stmt::ClassDecl(c) => Err(CodegenError { message: text("중첩된 class 선언은 지원되지 않습니다"), line: c.line }),
            Stmt::FuncDecl(f) => Err(CodegenError { message: text("중첩된 fn 선언은 지원되지 않습니다"), line: f.line }),
        }
    }

    /// `let`/`const`/`var`: the value, converted to the declared type (the value's own
    /// type where none is written), is stored in a new stack slot bound to the name.
    /// `null` declared with a type other than a class or an array has no representation yet and
    /// is refused.
    fn gen_var_decl(&self, vd: &VarDecl, fx: &mut FnCtx<'ctx>) -> (r: Result<(), CodegenError>)
        requires
            self.wf(),
            old(fx).env@.len() >= 1,
        ensures
            r is Ok ==> final(fx).env@.len() == old(fx).env@.len() && final(fx).loops@ == old(fx).loops@,
            r is Ok ==> outer_scopes(final(fx).env@) == outer_scopes(old(fx).env@),
            r is Ok ==> (cg_lookup(final(fx).env@, vd.name@) matches Some(b) && b.1 == var_decl_type(
                self.classes@,
                self.funcs@,
                old(fx).env@,
                opt_type_view(vd.ty),
                expr_view(vd.value),
            )),
            expr_view(vd.value) is Null && (opt_type_view(vd.ty) matches Some(t) && !(t.base is Named) && !(t.base is Array))
                ==> r is Err,
            cg_type(self.classes@, self.funcs@, old(fx).env@, expr_view(vd.value)) is None ==> r is Err,
    {
        let val = self.gen_expr(&vd.value, fx)?;
        let declared = match &vd.ty {
            Some(ann) => sema_type_of(ann),
            None => val.ty.duplicate(),
        };
        let coerced = self.coerce(val, &declared, vd.line)?;
        let lt = match sema_ty_to_llvm(self.context, self.classes, &declared) {
            Some(t) => t,
            None => return Err(CodegenError { message: text("값을 가질 수 없는 타입의 변수입니다"), line: vd.line }),
        };
        let slot = match llvm::alloca(&self.builder, lt, vd.name.as_str()) {
            Some(p) => p,
            None => return Err(llvm_fail(vd.line)),
        };
        if !llvm::store(&self.builder, slot, coerced.value) {
            return Err(llvm_fail(vd.line));
        }
        fx.env.define(vd.name.clone(), slot, declared);
        Ok(())
    }

    /// The condition of `if`, `elif` or `while`, as an `i1`.
    fn gen_cond(&self, cond: &Expr, fx: &FnCtx<'ctx>, line: usize) -> (r: Result<inkwell::values::IntValue<'ctx>, CodegenError>)
        requires
            self.wf(),
        ensures
            cg_type(self.classes@, self.funcs@, fx.env@, expr_view(*cond)) is None ==> r is Err,
            cg_plain_cond(self.classes@, self.funcs@, fx.env@, expr_view(*cond)) ==> (r is Ok || (r matches Err(e) && is_llvm_error(e))),
    {
        let v = self.gen_expr(cond, fx)?;
        match llvm::as_int(v.value) {
            Some(i) => Ok(i),
            None => if let Ty::Bool = v.ty.ty {
                Err(llvm_fail(line))
            } else {
                Err(CodegenError { message: text("조건식은 bool이어야 합니다"), line })
            },
        }
    }

    /// Branches to `target` unless the current block has already ended.
    fn close_block(&self, target: BasicBlock<'ctx>, line: usize) -> (r: Result<(), CodegenError>)
        ensures
            r matches Err(e) ==> is_llvm_error(e),
    {
        if self.block_open() {
            if !llvm::br(&self.builder, target) {
                return Err(llvm_fail(line));
            }
        }
        Ok(())
    }

    /// `if`/`elif`/`else`: each condition branches to its body or to the next test;
    /// every body that does not end otherwise jumps to the block after the statement.
    fn gen_if(&self, stmt: &Stmt, fx: &mut FnCtx<'ctx>, ret_ty: &SemaType) -> (r: Result<(), CodegenError>)
        requires
            self.wf(),
            old(fx).env@.len() >= 1,
            stmt_view(*stmt) is If,
        ensures
            r is Ok ==> final(fx).env@ == old(fx).env@ && final(fx).loops@ == old(fx).loops@,
            forall|k: int|
                0 <= k < stmt_view(*stmt)->If_0.branches.len() && cg_type(
                    self.classes@,
                    self.funcs@,
                    old(fx).env@,
                    (#[trigger] stmt_view(*stmt)->If_0.branches[k]).0,
                ) is None ==> r is Err,
            cg_plain_if(self.classes@, self.funcs@, old(fx).env@, stmt_view(*stmt), ret_ty@, old(fx).loops@.len() > 0) ==> (r is Ok || (r matches Err(e) && is_llvm_error(e))),
        decreases stmt_view(*stmt), 2nat,
    {
        match stmt {
            Stmt::If(if_stmt) => {
                let line = if_stmt.line;
                let function = self.current_function(line)?;
                let merge_bb = llvm::append_block(self.context, function, "if.end");
                proof {
                    lemma_branches_view(if_stmt.branches@);
                }
                let ghost bv = branches_view(if_stmt.branches@);
                proof {
                    assert(stmt_view(*stmt) == StmtV::If(IfStmtV {
                        branches: bv,
                        else_body: match if_stmt.else_body {
                            Some(b) => Some(stmts_view(b@)),
                            None => None,
                        },
                        line: if_stmt.line as int,
                    }));
                    assert(decreases_to!(stmt_view(*stmt) => stmt_view(*stmt)->If_0));
                    assert(decreases_to!(stmt_view(*stmt)->If_0 => stmt_view(*stmt)->If_0.branches));
                }
                let mut i: usize = 0;
                while i < if_stmt.branches.len()
                    invariant
                        i <= if_stmt.branches.len(),
                        self.wf(),
                        bv == branches_view(if_stmt.branches@),
                        bv.len() == if_stmt.branches.len(),
                        forall|k: int|
                            0 <= k < if_stmt.branches.len() ==> #[trigger] bv[k] == (
                                expr_view(if_stmt.branches@[k].0),
                                stmts_view(if_stmt.branches@[k].1@),
                            ),
                        decreases_to!(stmt_view(*stmt) => bv),
                        stmt_view(*stmt) is If,
                        stmt_view(*stmt)->If_0.branches == bv,
                        fx.env@ == old(fx).env@,
                        fx.loops@ == old(fx).loops@,
                        old(fx).env@.len() >= 1,
                        forall|k: int|
                            0 <= k < i ==> cg_type(self.classes@, self.funcs@, old(fx).env@, (#[trigger] bv[k]).0) is Some,
                        cg_plain_if(self.classes@, self.funcs@, old(fx).env@, stmt_view(*stmt), ret_ty@, old(fx).loops@.len() > 0)
                            ==> cg_plain_branches(
                            self.classes@,
                            self.funcs@,
                            old(fx).env@,
                            bv,
                            i as nat,
                            ret_ty@,
                            old(fx).loops@.len() > 0,
                        ),
                    decreases if_stmt.branches.len() - i,
                {
                    proof {
                        assert(decreases_to!(bv => bv[i as int]));
                        assert(decreases_to!(bv[i as int] => bv[i as int].0));
                        assert(decreases_to!(bv[i as int] => bv[i as int].1));
                    }
                    let branch = &if_stmt.branches[i];
                    let c = self.gen_cond(&branch.0, fx, line)?;
                    let then_bb = llvm::append_block(self.context, function, "if.then");
                    let else_bb = llvm::append_block(self.context, function, "if.else");
                    if !llvm::cond_br(&self.builder, c, then_bb, else_bb) {
                        return Err(llvm_fail(line));
                    }
                    llvm::position_at_end(&self.builder, then_bb);
                    self.gen_scoped_block(&branch.1, fx, ret_ty)?;
                    self.close_block(merge_bb, line)?;
                    llvm::position_at_end(&self.builder, else_bb);
                    i += 1;
                }
                match &if_stmt.else_body {
                    Some(body) => {
                        proof {
                            let iv = stmt_view(*stmt)->If_0;
                            assert(decreases_to!(stmt_view(*stmt) => iv));
                            assert(decreases_to!(iv => iv.else_body));
                            assert(decreases_to!(iv.else_body => iv.else_body->Some_0));
                        }
                        self.gen_scoped_block(body, fx, ret_ty)?;
                    },
                    None => {},
                }
                self.close_block(merge_bb, line)?;
                llvm::position_at_end(&self.builder, merge_bb);
                Ok(())
            },
            _ => Err(CodegenError { message: text("if 문이 아닙니다"), line: 0 }),
        }
    }

    /// `while`: a block that tests the condition, the body (where `continue` goes back
    /// to the test and `break` leaves), and the block after the loop.
    fn gen_while(&self, stmt: &Stmt, fx: &mut FnCtx<'ctx>, ret_ty: &SemaType) -> (r: Result<(), CodegenError>)
        requires
            self.wf(),
            old(fx).env@.len() >= 1,
            stmt_view(*stmt) is While,
        ensures
            r is Ok ==> final(fx).env@ == old(fx).env@ && final(fx).loops@ == old(fx).loops@,
            cg_type(self.classes@, self.funcs@, old(fx).env@, stmt_view(*stmt)->While_0.cond) is None ==> r is Err,
            cg_plain_stmt(self.classes@, self.funcs@, old(fx).env@, stmt_view(*stmt), ret_ty@, old(fx).loops@.len() > 0) ==> (r is Ok || (r matches Err(e) && is_llvm_error(e))),
        decreases stmt_view(*stmt), 2nat,
    {
        match stmt {
            Stmt::While(w) => {
                let line = w.line;
                let function = self.current_function(line)?;
                let cond_bb = llvm::append_block(self.context, function, "while.cond");
                let body_bb = llvm::append_block(self.context, function, "while.body");
                let end_bb = llvm::append_block(self.context, function, "while.end");
                if !llvm::br(&self.builder, cond_bb) {
                    return Err(llvm_fail(line));
                }
                llvm::position_at_end(&self.builder, cond_bb);
                let c = self.gen_cond(&w.cond, fx, line)?;
                if !llvm::cond_br(&self.builder, c, body_bb, end_bb) {
                    return Err(llvm_fail(line));
                }
                llvm::position_at_end(&self.builder, body_bb);
                proof {
                    assert(stmt_view(*stmt) == StmtV::While(WhileStmtV { cond: expr_view(w.cond), body: stmts_view(w.body@), line: w.line as int }));
                    assert(decreases_to!(stmt_view(*stmt) => stmt_view(*stmt)->While_0));
                    assert(decreases_to!(stmt_view(*stmt)->While_0 => stmt_view(*stmt)->While_0.body));
                }
                fx.loops.push((cond_bb, end_bb));
                self.gen_scoped_block(&w.body, fx, ret_ty)?;
                fx.loops.pop();
                self.close_block(cond_bb, line)?;
                llvm::position_at_end(&self.builder, end_bb);
                Ok(())
            },
            _ => Err(CodegenError { message: text("while 문이 아닙니다"), line: 0 }),
        }
    }

    /// `for x in a`: an `i64` counter runs from 0 below the array's length; each
    /// round copies the element to a slot bound to `x` in the body's scope, and
    /// `continue` goes to the step that advances the counter. On success, the
    /// instructions of the loop's test and of its step.
    fn gen_for(&self, stmt: &Stmt, fx: &mut FnCtx<'ctx>, ret_ty: &SemaType) -> (r: Result<(Op, Op), CodegenError>)
        requires
            self.wf(),
            old(fx).env@.len() >= 1,
            stmt_view(*stmt) is For,
        ensures
            r is Ok ==> final(fx).env@ == old(fx).env@ && final(fx).loops@ == old(fx).loops@,
            r matches Ok((test, step)) ==> test == Op::IntCompare(IntCmp::Ult) && step == Op::IntAdd,
            ({
                let f = stmt_view(*stmt)->For_0;
                &&& cg_plain(self.classes@, self.funcs@, old(fx).env@, f.iter)
                &&& cg_type(self.classes@, self.funcs@, old(fx).env@, f.iter) matches Some(t)
                &&& t.ty matches TyV::Array(el) && has_llvm_type(self.classes.name_seq(), *el)
                    && forall|p: PointerValue<'ctx>|
                    #[trigger] cg_plain_block(
                        self.classes@,
                        self.funcs@,
                        cg_define(old(fx).env@.push(Seq::empty()), f.var_name, p, nn(*el)),
                        f.body,
                        0,
                        ret_ty@,
                        true,
                    )
            }) ==> (r is Ok || (r matches Err(e) && is_llvm_error(e))),
            !(cg_type(self.classes@, self.funcs@, old(fx).env@, stmt_view(*stmt)->For_0.iter) matches Some(t) && t.ty is Array)
                ==> r is Err,
        decreases stmt_view(*stmt), 2nat,
    {
        match stmt {
            Stmt::For(f) => {
                let line = f.line;
                let iter = self.gen_expr(&f.iter, fx)?;
                let elem_ty = match &iter.ty.ty {
                    Ty::Array(e) => SemaType::non_null(e.duplicate()),
                    other => {
                        let mut m = text("for 루프의 반복 대상은 배열이어야 합니다 (실제: ");
                        crate::text::push_str(&mut m, other.to_text().as_str());
                        crate::text::push_str(&mut m, ")");
                        return Err(CodegenError { message: m, line });
                    },
                };
                let sv = match llvm::as_struct(iter.value) {
                    Some(s) => s,
                    None => return Err(llvm_fail(line)),
                };
                let data = match llvm::extract(&self.builder, sv, 0, "for.data") {
                    Some(v) => v,
                    None => return Err(llvm_fail(line)),
                };
                let len = match llvm::extract(&self.builder, sv, 1, "for.len") {
                    Some(v) => v,
                    None => return Err(llvm_fail(line)),
                };
                let (data, len) = match (llvm::as_ptr(data), llvm::as_int(len)) {
                    (Some(d), Some(l)) => (d, l),
                    _ => return Err(llvm_fail(line)),
                };
                let elem_lt = match sema_ty_to_llvm(self.context, self.classes, &elem_ty) {
                    Some(t) => t,
                    None => return Err(CodegenError { message: text("값을 가질 수 없는 원소 타입입니다"), line }),
                };
                let function = self.current_function(line)?;
                let cond_bb = llvm::append_block(self.context, function, "for.cond");
                let body_bb = llvm::append_block(self.context, function, "for.body");
                let inc_bb = llvm::append_block(self.context, function, "for.inc");
                let end_bb = llvm::append_block(self.context, function, "for.end");
                let i64t = llvm::i64_type(self.context).0;
                let idx_slot = match llvm::alloca(&self.builder, llvm::int_ty_basic(i64t), "for.idx") {
                    Some(p) => p,
                    None => return Err(llvm_fail(line)),
                };
                if !llvm::store(&self.builder, idx_slot, llvm::int_val(llvm::const_int(i64t, 0, false))) {
                    return Err(llvm_fail(line));
                }
                if !llvm::br(&self.builder, cond_bb) {
                    return Err(llvm_fail(line));
                }
                llvm::position_at_end(&self.builder, cond_bb);
                let idx = match llvm::load(&self.builder, idx_slot, "for.idx.v") {
                    Some(v) => v,
                    None => return Err(llvm_fail(line)),
                };
                let idx = match llvm::as_int(idx) {
                    Some(i) => i,
                    None => return Err(llvm_fail(line)),
                };
                let (in_range, test) = match llvm::int_compare(&self.builder, llvm::IntCmp::Ult, idx, len, "for.test") {
                    Some(c) => c,
                    None => return Err(llvm_fail(line)),
                };
                if !llvm::cond_br(&self.builder, in_range, body_bb, end_bb) {
                    return Err(llvm_fail(line));
                }
                llvm::position_at_end(&self.builder, body_bb);
                let elem_ptr = self.element_address(data, idx, elem_lt, line)?;
                let elem = match llvm::load(&self.builder, elem_ptr, "for.elem") {
                    Some(v) => v,
                    None => return Err(llvm_fail(line)),
                };
                let var_slot = match llvm::alloca(&self.builder, elem_lt, f.var_name.as_str()) {
                    Some(p) => p,
                    None => return Err(llvm_fail(line)),
                };
                if !llvm::store(&self.builder, var_slot, elem) {
                    return Err(llvm_fail(line));
                }
                proof {
                    assert(stmt_view(*stmt) == StmtV::For(ForStmtV {
                        var_name: f.var_name@,
                        iter: expr_view(f.iter),
                        body: stmts_view(f.body@),
                        line: f.line as int,
                    }));
                    assert(decreases_to!(stmt_view(*stmt) => stmt_view(*stmt)->For_0));
                    assert(decreases_to!(stmt_view(*stmt)->For_0 => stmt_view(*stmt)->For_0.body));
                }
                fx.env.push_scope();
                fx.env.define(f.var_name.clone(), var_slot, elem_ty);
                fx.loops.push((inc_bb, end_bb));
                proof {
                    let sv = stmt_view(*stmt)->For_0;
                    assert(sv.var_name == f.var_name@ && sv.body == stmts_view(f.body@));
                    assert(fx.env@ == cg_define(old(fx).env@.push(Seq::empty()), sv.var_name, var_slot, elem_ty@));
                    if let Some(t) = cg_type(self.classes@, self.funcs@, old(fx).env@, sv.iter) {
                        if let TyV::Array(el) = t.ty {
                            assert(elem_ty@ == nn(*el));
                            assert(cg_plain_block(
                                self.classes@,
                                self.funcs@,
                                cg_define(old(fx).env@.push(Seq::empty()), sv.var_name, var_slot, nn(*el)),
                                sv.body,
                                0,
                                ret_ty@,
                                true,
                            ) ==> cg_plain_block(self.classes@, self.funcs@, fx.env@, stmts_view(f.body@), 0, ret_ty@, fx.loops@.len() > 0));
                        }
                    }
                }
                self.gen_block(&f.body, fx, ret_ty)?;
                fx.loops.pop();
                fx.env.pop_scope();
                self.close_block(inc_bb, line)?;
                llvm::position_at_end(&self.builder, inc_bb);
                let cur = match llvm::load(&self.builder, idx_slot, "for.cur") {
                    Some(v) => v,
                    None => return Err(llvm_fail(line)),
                };
                let cur = match llvm::as_int(cur) {
                    Some(i) => i,
                    None => return Err(llvm_fail(line)),
                };
                let (next, step) = match llvm::int_add(&self.builder, cur, llvm::const_int(i64t, 1, false), "for.next") {
                    Some(v) => v,
                    None => return Err(llvm_fail(line)),
                };
                if !llvm::store(&self.builder, idx_slot, llvm::int_val(next)) {
                    return Err(llvm_fail(line));
                }
                if !llvm::br(&self.builder, cond_bb) {
                    return Err(llvm_fail(line));
                }
                llvm::position_at_end(&self.builder, end_bb);
                Ok((test, step))
            },
            _ => Err(CodegenError { message: text("for 문이 아닙니다"), line: 0 }),
        }
    }

    /// `return`: the value, converted to the function's return type, or nothing.
    fn gen_return(&self, value: &Option<Expr>, line: usize, ret_ty: &SemaType, fx: &FnCtx<'ctx>) -> (r: Result<(), CodegenError>)
        requires
            self.wf(),
        ensures
            (*value matches Some(e) && expr_view(e) is Null) && !(ret_ty@.ty is Class) && !(ret_ty@.ty is Array) && !(
            ret_ty@.ty is NullLit) ==> r is Err,
            (*value matches Some(e) && cg_type(self.classes@, self.funcs@, fx.env@, expr_view(e)) is None) ==> r is Err,
            (*value matches Some(e) ==> cg_plain(self.classes@, self.funcs@, fx.env@, expr_view(e)) && (cg_type(
                self.classes@,
                self.funcs@,
                fx.env@,
                expr_view(e),
            ) matches Some(t) && t.ty == ret_ty@.ty)) ==> (r is Ok || (r matches Err(e) && is_llvm_error(e))),
    {
        match value {
            Some(e) => {
                let v = self.gen_expr(e, fx)?;
                let c = self.coerce(v, ret_ty, line)?;
                if !llvm::ret_value(&self.builder, c.value) {
                    return Err(llvm_fail(line));
                }
            },
            None => {
                if !llvm::ret_void(&self.builder) {
                    return Err(llvm_fail(line));
                }
            },
        }
        Ok(())
    }
}

} // verus!
