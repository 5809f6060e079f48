//! Assignment targets: every assignment of a program assigns to a variable, a field
//! or an array element (the parser builds no other), which semantic analysis relies on.

use vstd::prelude::*;

use crate::parser::ast::{
    branches_view, expr_view, exprs_view, func_view, funcs_view, is_lvalue_spec, lemma_branches_view, lemma_exprs_view,
    lemma_funcs_view, lemma_stmts_view, program_view, stmt_view, stmts_view, ClassDeclV, Expr, ExprV, FuncDecl, FuncDeclV,
    Program, Stmt, StmtV,
};

verus! {

/// Whether every assignment within `e` assigns to a variable, a field or an element.
pub open spec fn targets_ok(e: ExprV) -> bool
    decreases e, 0int,
{
    match e {
        ExprV::New { args, .. } => exprs_targets_ok(args, 0),
        ExprV::ArrayLit { elements, .. } => exprs_targets_ok(elements, 0),
        ExprV::Call { callee, args, .. } => targets_ok(*callee) && exprs_targets_ok(args, 0),
        ExprV::Member { object, .. } => targets_ok(*object),
        ExprV::Index { object, index, .. } => targets_ok(*object) && targets_ok(*index),
        ExprV::Cast { expr, .. } => targets_ok(*expr),
        ExprV::Unary { expr, .. } => targets_ok(*expr),
        ExprV::Binary { lhs, rhs, .. } => targets_ok(*lhs) && targets_ok(*rhs),
        ExprV::Assign { target, value, .. } => is_lvalue_spec(*target) && targets_ok(*target) && targets_ok(*value),
        ExprV::Grouping(inner) => targets_ok(*inner),
        _ => true,
    }
}

/// `targets_ok` of each of `es[i..]`.
pub open spec fn exprs_targets_ok(es: Seq<ExprV>, i: nat) -> bool
    decreases es, es.len() - i,
{
    if i >= es.len() {
        true
    } else {
        targets_ok(es[i as int]) && exprs_targets_ok(es, i + 1)
    }
}

/// `targets_ok` of every expression within the statement `s`.
pub open spec fn stmt_targets_ok(s: StmtV) -> bool
    decreases s, 0int,
{
    match s {
        StmtV::ClassDecl(c) => methods_targets_ok(c.methods, 0),
        StmtV::FuncDecl(f) => block_targets_ok(f.body, 0),
        StmtV::VarDecl(v) => targets_ok(v.value),
        StmtV::If(i) => branches_targets_ok(i.branches, 0) && match i.else_body {
            Some(b) => block_targets_ok(b, 0),
            None => true,
        },
        StmtV::While(w) => targets_ok(w.cond) && block_targets_ok(w.body, 0),
        StmtV::For(f) => targets_ok(f.iter) && block_targets_ok(f.body, 0),
        StmtV::Return { value, .. } => match value {
            Some(e) => targets_ok(e),
            None => true,
        },
        StmtV::Expr(e) => targets_ok(e),
        _ => true,
    }
}

pub open spec fn block_targets_ok(ss: Seq<StmtV>, i: nat) -> bool
    decreases ss, ss.len() - i,
{
    if i >= ss.len() {
        true
    } else {
        stmt_targets_ok(ss[i as int]) && block_targets_ok(ss, i + 1)
    }
}

pub open spec fn branches_targets_ok(bs: Seq<(ExprV, Seq<StmtV>)>, i: nat) -> bool
    decreases bs, bs.len() - i,
{
    if i >= bs.len() {
        true
    } else {
        targets_ok(bs[i as int].0) && block_targets_ok(bs[i as int].1, 0) && branches_targets_ok(bs, i + 1)
    }
}

pub open spec fn methods_targets_ok(ms: Seq<FuncDeclV>, i: nat) -> bool
    decreases ms, ms.len() - i,
{
    if i >= ms.len() {
        true
    } else {
        block_targets_ok(ms[i as int].body, 0) && methods_targets_ok(ms, i + 1)
    }
}

/// Whether every assignment of the program assigns to a variable, a field or an
/// element.
pub open spec fn program_targets_ok(items: Seq<StmtV>) -> bool {
    block_targets_ok(items, 0)
}

// ---------------------------------------------------------------------------
// Assignments only as statements
// ---------------------------------------------------------------------------

/// Whether no assignment stands within `e`.
pub open spec fn no_assign(e: ExprV) -> bool
    decreases e, 0int,
{
    match e {
        ExprV::New { args, .. } => exprs_no_assign(args, 0),
        ExprV::ArrayLit { elements, .. } => exprs_no_assign(elements, 0),
        ExprV::Call { callee, args, .. } => no_assign(*callee) && exprs_no_assign(args, 0),
        ExprV::Member { object, .. } => no_assign(*object),
        ExprV::Index { object, index, .. } => no_assign(*object) && no_assign(*index),
        ExprV::Cast { expr, .. } => no_assign(*expr),
        ExprV::Unary { expr, .. } => no_assign(*expr),
        ExprV::Binary { lhs, rhs, .. } => no_assign(*lhs) && no_assign(*rhs),
        ExprV::Assign { .. } => false,
        ExprV::Grouping(inner) => no_assign(*inner),
        _ => true,
    }
}

pub open spec fn exprs_no_assign(es: Seq<ExprV>, i: nat) -> bool
    decreases es, es.len() - i,
{
    if i >= es.len() {
        true
    } else {
        no_assign(es[i as int]) && exprs_no_assign(es, i + 1)
    }
}

/// The expression of an expression statement: an expression without assignments,
/// or one assignment of such an expression to a variable, a field or an element.
pub open spec fn statement_expr_ok(e: ExprV) -> bool {
    match e {
        ExprV::Assign { target, value, .. } => is_lvalue_spec(*target) && no_assign(*target) && no_assign(*value),
        _ => no_assign(e),
    }
}

/// Whether the assignments within `s` stand only as expression statements of their
/// own, each assigning to a variable, a field or an element.
pub open spec fn stmt_assigns_ok(s: StmtV) -> bool
    decreases s, 0int,
{
    match s {
        StmtV::ClassDecl(c) => methods_assigns_ok(c.methods, 0),
        StmtV::FuncDecl(f) => block_assigns_ok(f.body, 0),
        StmtV::VarDecl(v) => no_assign(v.value),
        StmtV::If(i) => branches_assigns_ok(i.branches, 0) && match i.else_body {
            Some(b) => block_assigns_ok(b, 0),
            None => true,
        },
        StmtV::While(w) => no_assign(w.cond) && block_assigns_ok(w.body, 0),
        StmtV::For(f) => no_assign(f.iter) && block_assigns_ok(f.body, 0),
        StmtV::Return { value, .. } => match value {
            Some(e) => no_assign(e),
            None => true,
        },
        StmtV::Expr(e) => statement_expr_ok(e),
        _ => true,
    }
}

pub open spec fn block_assigns_ok(ss: Seq<StmtV>, i: nat) -> bool
    decreases ss, ss.len() - i,
{
    if i >= ss.len() {
        true
    } else {
        stmt_assigns_ok(ss[i as int]) && block_assigns_ok(ss, i + 1)
    }
}

pub open spec fn branches_assigns_ok(bs: Seq<(ExprV, Seq<StmtV>)>, i: nat) -> bool
    decreases bs, bs.len() - i,
{
    if i >= bs.len() {
        true
    } else {
        no_assign(bs[i as int].0) && block_assigns_ok(bs[i as int].1, 0) && branches_assigns_ok(bs, i + 1)
    }
}

pub open spec fn methods_assigns_ok(ms: Seq<FuncDeclV>, i: nat) -> bool
    decreases ms, ms.len() - i,
{
    if i >= ms.len() {
        true
    } else {
        block_assigns_ok(ms[i as int].body, 0) && methods_assigns_ok(ms, i + 1)
    }
}

proof fn lemma_no_assign_targets(e: ExprV)
    requires
        no_assign(e),
    ensures
        targets_ok(e),
    decreases e, 1int,
{
    match e {
        ExprV::New { args, .. } => lemma_exprs_no_assign_targets(args, 0),
        ExprV::ArrayLit { elements, .. } => lemma_exprs_no_assign_targets(elements, 0),
        ExprV::Call { callee, args, .. } => {
            lemma_no_assign_targets(*callee);
            lemma_exprs_no_assign_targets(args, 0);
        },
        ExprV::Member { object, .. } => lemma_no_assign_targets(*object),
        ExprV::Index { object, index, .. } => {
            lemma_no_assign_targets(*object);
            lemma_no_assign_targets(*index);
        },
        ExprV::Cast { expr, .. } => lemma_no_assign_targets(*expr),
        ExprV::Unary { expr, .. } => lemma_no_assign_targets(*expr),
        ExprV::Binary { lhs, rhs, .. } => {
            lemma_no_assign_targets(*lhs);
            lemma_no_assign_targets(*rhs);
        },
        ExprV::Grouping(inner) => lemma_no_assign_targets(*inner),
        _ => {},
    }
}

proof fn lemma_exprs_no_assign_targets(es: Seq<ExprV>, i: nat)
    requires
        exprs_no_assign(es, i),
    ensures
        exprs_targets_ok(es, i),
    decreases es, es.len() - i,
{
    if i < es.len() {
        lemma_no_assign_targets(es[i as int]);
        lemma_exprs_no_assign_targets(es, i + 1);
    }
}

proof fn lemma_stmt_assigns_targets(s: StmtV)
    requires
        stmt_assigns_ok(s),
    ensures
        stmt_targets_ok(s),
    decreases s, 1int,
{
    match s {
        StmtV::ClassDecl(c) => lemma_methods_assigns_targets(c.methods, 0),
        StmtV::FuncDecl(f) => lemma_block_assigns_targets(f.body, 0),
        StmtV::VarDecl(v) => lemma_no_assign_targets(v.value),
        StmtV::If(i) => {
            lemma_branches_assigns_targets(i.branches, 0);
            match i.else_body {
                Some(b) => lemma_block_assigns_targets(b, 0),
                None => {},
            }
        },
        StmtV::While(w) => {
            lemma_no_assign_targets(w.cond);
            lemma_block_assigns_targets(w.body, 0);
        },
        StmtV::For(f) => {
            lemma_no_assign_targets(f.iter);
            lemma_block_assigns_targets(f.body, 0);
        },
        StmtV::Return { value, .. } => match value {
            Some(e) => lemma_no_assign_targets(e),
            None => {},
        },
        StmtV::Expr(e) => match e {
            ExprV::Assign { target, value, .. } => {
                lemma_no_assign_targets(*target);
                lemma_no_assign_targets(*value);
            },
            _ => lemma_no_assign_targets(e),
        },
        _ => {},
    }
}

proof fn lemma_block_assigns_targets(ss: Seq<StmtV>, i: nat)
    requires
        block_assigns_ok(ss, i),
    ensures
        block_targets_ok(ss, i),
    decreases ss, ss.len() - i,
{
    if i < ss.len() {
        lemma_stmt_assigns_targets(ss[i as int]);
        lemma_block_assigns_targets(ss, i + 1);
    }
}

proof fn lemma_branches_assigns_targets(bs: Seq<(ExprV, Seq<StmtV>)>, i: nat)
    requires
        branches_assigns_ok(bs, i),
    ensures
        branches_targets_ok(bs, i),
    decreases bs, bs.len() - i,
{
    if i < bs.len() {
        lemma_no_assign_targets(bs[i as int].0);
        lemma_block_assigns_targets(bs[i as int].1, 0);
        lemma_branches_assigns_targets(bs, i + 1);
    }
}

proof fn lemma_methods_assigns_targets(ms: Seq<FuncDeclV>, i: nat)
    requires
        methods_assigns_ok(ms, i),
    ensures
        methods_targets_ok(ms, i),
    decreases ms, ms.len() - i,
{
    if i < ms.len() {
        lemma_block_assigns_targets(ms[i as int].body, 0);
        lemma_methods_assigns_targets(ms, i + 1);
    }
}

/// Where assignments stand only as statements, each assigning to a variable, a
/// field or an element, every assignment of the program has such a target.
pub proof fn lemma_assigns_ok_targets_ok(items: Seq<StmtV>)
    requires
        block_assigns_ok(items, 0),
    ensures
        program_targets_ok(items),
{
    lemma_block_assigns_targets(items, 0);
}

/// Whether every assignment within `e` assigns to a variable, a field or an element.
pub fn expr_targets_ok(e: &Expr) -> (r: bool)
    ensures
        r == targets_ok(expr_view(*e)),
    decreases expr_view(*e), 1int,
{
    let ghost ev = expr_view(*e);
    match e {
        Expr::New { args, .. } => {
            proof {
                assert(decreases_to!(ev => ev->New_args));
            }
            list_targets_ok(args)
        },
        Expr::ArrayLit { elements, .. } => {
            proof {
                assert(decreases_to!(ev => ev->ArrayLit_elements));
            }
            list_targets_ok(elements)
        },
        Expr::Call { callee, args, .. } => {
            proof {
                assert(decreases_to!(ev => ev->Call_callee));
                assert(decreases_to!(ev => ev->Call_args));
            }
            expr_targets_ok(callee) && list_targets_ok(args)
        },
        Expr::Member { object, .. } => {
            proof {
                assert(decreases_to!(ev => ev->Member_object));
            }
            expr_targets_ok(object)
        },
        Expr::Index { object, index, .. } => {
            proof {
                assert(decreases_to!(ev => ev->Index_object));
                assert(decreases_to!(ev => ev->Index_index));
            }
            expr_targets_ok(object) && expr_targets_ok(index)
        },
        Expr::Cast { expr, .. } => {
            proof {
                assert(decreases_to!(ev => ev->Cast_expr));
            }
            expr_targets_ok(expr)
        },
        Expr::Unary { expr, .. } => {
            proof {
                assert(decreases_to!(ev => ev->Unary_expr));
            }
            expr_targets_ok(expr)
        },
        Expr::Binary { lhs, rhs, .. } => {
            proof {
                assert(decreases_to!(ev => ev->Binary_lhs));
                assert(decreases_to!(ev => ev->Binary_rhs));
            }
            expr_targets_ok(lhs) && expr_targets_ok(rhs)
        },
        Expr::Assign { target, value, .. } => {
            proof {
                assert(decreases_to!(ev => ev->Assign_target));
                assert(decreases_to!(ev => ev->Assign_value));
            }
            target.is_lvalue() && expr_targets_ok(target) && expr_targets_ok(value)
        },
        Expr::Grouping(inner) => {
            proof {
                assert(decreases_to!(ev => ev->Grouping_0));
            }
            expr_targets_ok(inner)
        },
        _ => true,
    }
}

fn list_targets_ok(es: &Vec<Expr>) -> (r: bool)
    ensures
        r == exprs_targets_ok(exprs_view(es@), 0),
    decreases exprs_view(es@), 0int,
{
    proof {
        lemma_exprs_view(es@);
    }
    let ghost v = exprs_view(es@);
    let mut i: usize = 0;
    while i < es.len()
        invariant
            i <= es.len(),
            v == exprs_view(es@),
            v.len() == es.len(),
            forall|k: int| 0 <= k < es.len() ==> #[trigger] v[k] == expr_view(es@[k]),
            exprs_targets_ok(v, 0) == exprs_targets_ok(v, i as nat),
        decreases es.len() - i,
    {
        proof {
            assert(decreases_to!(v => v[i as int]));
        }
        if !expr_targets_ok(&es[i]) {
            return false;
        }
        i += 1;
    }
    true
}

fn stmt_ok(s: &Stmt) -> (r: bool)
    ensures
        r == stmt_targets_ok(stmt_view(*s)),
    decreases stmt_view(*s), 1int,
{
    let ghost sv = stmt_view(*s);
    match s {
        Stmt::ClassDecl(c) => {
            proof {
                assert(decreases_to!(sv => sv->ClassDecl_0));
                assert(decreases_to!(sv->ClassDecl_0 => sv->ClassDecl_0.methods));
            }
            methods_ok(&c.methods)
        },
        Stmt::FuncDecl(f) => {
            proof {
                assert(decreases_to!(sv => sv->FuncDecl_0));
                assert(decreases_to!(sv->FuncDecl_0 => sv->FuncDecl_0.body));
            }
            block_ok(&f.body)
        },
        Stmt::VarDecl(v) => expr_targets_ok(&v.value),
        Stmt::If(i) => {
            proof {
                assert(decreases_to!(sv => sv->If_0));
                assert(decreases_to!(sv->If_0 => sv->If_0.branches));
                assert(decreases_to!(sv->If_0 => sv->If_0.else_body));
            }
            if !branches_ok(&i.branches) {
                return false;
            }
            match &i.else_body {
                Some(b) => {
                    proof {
                        assert(decreases_to!(sv->If_0.else_body => sv->If_0.else_body->Some_0));
                    }
                    block_ok(b)
                },
                None => true,
            }
        },
        Stmt::While(w) => {
            proof {
                assert(decreases_to!(sv => sv->While_0));
                assert(decreases_to!(sv->While_0 => sv->While_0.body));
            }
            expr_targets_ok(&w.cond) && block_ok(&w.body)
        },
        Stmt::For(f) => {
            proof {
                assert(decreases_to!(sv => sv->For_0));
                assert(decreases_to!(sv->For_0 => sv->For_0.body));
            }
            expr_targets_ok(&f.iter) && block_ok(&f.body)
        },
        Stmt::Return { value, .. } => match value {
            Some(e) => expr_targets_ok(e),
            None => true,
        },
        Stmt::Expr(e) => expr_targets_ok(e),
        _ => true,
    }
}

fn block_ok(ss: &Vec<Stmt>) -> (r: bool)
    ensures
        r == block_targets_ok(stmts_view(ss@), 0),
    decreases stmts_view(ss@), 0int,
{
    proof {
        lemma_stmts_view(ss@);
    }
    let ghost v = stmts_view(ss@);
    let mut i: usize = 0;
    while i < ss.len()
        invariant
            i <= ss.len(),
            v == stmts_view(ss@),
            v.len() == ss.len(),
            forall|k: int| 0 <= k < ss.len() ==> #[trigger] v[k] == stmt_view(ss@[k]),
            block_targets_ok(v, 0) == block_targets_ok(v, i as nat),
        decreases ss.len() - i,
    {
        proof {
            assert(decreases_to!(v => v[i as int]));
        }
        if !stmt_ok(&ss[i]) {
            return false;
        }
        i += 1;
    }
    true
}

fn branches_ok(bs: &Vec<(Expr, Vec<Stmt>)>) -> (r: bool)
    ensures
        r == branches_targets_ok(branches_view(bs@), 0),
    decreases branches_view(bs@), 0int,
{
    proof {
        lemma_branches_view(bs@);
    }
    let ghost v = branches_view(bs@);
    let mut i: usize = 0;
    while i < bs.len()
        invariant
            i <= bs.len(),
            v == branches_view(bs@),
            v.len() == bs.len(),
            forall|k: int|
                0 <= k < bs.len() ==> #[trigger] v[k] == (expr_view(bs@[k].0), stmts_view(bs@[k].1@)),
            branches_targets_ok(v, 0) == branches_targets_ok(v, i as nat),
        decreases bs.len() - i,
    {
        proof {
            assert(decreases_to!(v => v[i as int]));
            assert(decreases_to!(v[i as int] => v[i as int].1));
        }
        if !expr_targets_ok(&bs[i].0) || !block_ok(&bs[i].1) {
            return false;
        }
        i += 1;
    }
    true
}

fn methods_ok(ms: &Vec<FuncDecl>) -> (r: bool)
    ensures
        r == methods_targets_ok(funcs_view(ms@), 0),
    decreases funcs_view(ms@), 0int,
{
    proof {
        lemma_funcs_view(ms@);
    }
    let ghost v = funcs_view(ms@);
    let mut i: usize = 0;
    while i < ms.len()
        invariant
            i <= ms.len(),
            v == funcs_view(ms@),
            v.len() == ms.len(),
            forall|k: int| 0 <= k < ms.len() ==> #[trigger] v[k] == func_view(ms@[k]),
            methods_targets_ok(v, 0) == methods_targets_ok(v, i as nat),
        decreases ms.len() - i,
    {
        proof {
            assert(decreases_to!(v => v[i as int]));
            assert(decreases_to!(v[i as int] => v[i as int].body));
        }
        if !block_ok(&ms[i].body) {
            return false;
        }
        i += 1;
    }
    true
}

/// Whether every assignment of the program assigns to a variable, a field or an
/// element, as semantic analysis needs.
pub fn assignments_ok(program: &Program) -> (r: bool)
    ensures
        r == program_targets_ok(program_view(*program)),
{
    block_ok(&program.items)
}

} // verus!
