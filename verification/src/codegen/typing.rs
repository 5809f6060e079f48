//! The type that the code generator gives the value of an expression, as a
//! function of the classes, the top-level functions and the variables in scope.

use vstd::prelude::*;

use crate::codegen::env::{cg_lookup, CgScopeV};
use crate::codegen::layout::flat_fields;
use crate::codegen::types::field_slot;
use crate::codegen::{base_ty_spec, is_literal_spec, print_format_spec};
use crate::parser::ast::{BinaryOp, ExprV, StmtV, TypeV, UnaryOp};
use crate::sema::class_table::ClassInfoV;
use crate::sema::rules::{lookup_func, method_of, FuncSigV};
use crate::sema::types::{is_numeric_ty, nn, SemaTypeV, TyV};

verus! {

/// The type of field `name` of an object of class `c`: the last field of that name
/// in the class's layout.
pub open spec fn field_type(cs: Seq<ClassInfoV>, c: Seq<char>, name: Seq<char>) -> Option<SemaTypeV> {
    let flat = flat_fields(cs, c, cs.len() + 1);
    match field_slot(flat, name) {
        Some(j) => Some(flat[j as int].1),
        None => None,
    }
}

/// The common type of the operands of an arithmetic or comparison operator: their
/// type where they agree, else the type of the operand that is not a literal.
pub open spec fn cg_unify(le: ExprV, lt: SemaTypeV, re: ExprV, rt: SemaTypeV) -> Option<SemaTypeV> {
    if lt.ty == rt.ty {
        Some(lt)
    } else if is_literal_spec(le) {
        Some(rt)
    } else if is_literal_spec(re) {
        Some(lt)
    } else {
        None
    }
}

pub open spec fn is_comparison(op: BinaryOp) -> bool {
    op is Lt || op is LtEq || op is Gt || op is GtEq || op is Eq || op is NotEq || op is And || op is Or
}

/// The type of the value that generating `e` yields, where it can yield one.
pub open spec fn cg_type<P>(cs: Seq<ClassInfoV>, fs: Seq<FuncSigV>, env: Seq<CgScopeV<P>>, e: ExprV) -> Option<SemaTypeV>
    decreases e,
{
    match e {
        ExprV::IntLit(_) => Some(nn(TyV::I32)),
        ExprV::FloatLit(_) => Some(nn(TyV::F64)),
        ExprV::BoolLit(_) => Some(nn(TyV::Bool)),
        ExprV::CharLit(_) => Some(nn(TyV::Char)),
        ExprV::StringLit(_) => Some(nn(TyV::Str)),
        ExprV::Null => Some(SemaTypeV { ty: TyV::NullLit, nullable: true }),
        ExprV::SelfExpr => match cg_lookup(env, "self"@) {
            Some(b) => Some(b.1),
            None => None,
        },
        ExprV::Ident(n) => match cg_lookup(env, n) {
            Some(b) => Some(b.1),
            None => None,
        },
        ExprV::Grouping(inner) => cg_type(cs, fs, env, *inner),
        ExprV::New { class_name, .. } => Some(nn(TyV::Class(class_name))),
        ExprV::Call { callee, .. } => match *callee {
            ExprV::Member { object, name, .. } => match cg_type(cs, fs, env, *object) {
                Some(ot) => match ot.ty {
                    TyV::Class(c) => match method_of(cs, c, name) {
                        Some(m) => Some(m.ret),
                        None => None,
                    },
                    _ => None,
                },
                None => None,
            },
            ExprV::Ident(n) => if n == "print"@ && lookup_func(fs, n) is None {
                Some(nn(TyV::Void))
            } else {
                match lookup_func(fs, n) {
                    Some(f) => Some(f.ret),
                    None => None,
                }
            },
            _ => None,
        },
        ExprV::Member { object, name, .. } => match cg_type(cs, fs, env, *object) {
            Some(ot) => match ot.ty {
                TyV::Array(_) => if name == "length"@ {
                    Some(nn(TyV::I64))
                } else {
                    None
                },
                TyV::Class(c) => field_type(cs, c, name),
                _ => None,
            },
            None => None,
        },
        ExprV::ArrayLit { elements, .. } => if elements.len() == 0 {
            Some(SemaTypeV { ty: TyV::EmptyArrayLit, nullable: false })
        } else {
            match cg_type(cs, fs, env, elements[0]) {
                Some(t) => Some(nn(TyV::Array(Box::new(t.ty)))),
                None => None,
            }
        },
        ExprV::Index { object, .. } => match cg_type(cs, fs, env, *object) {
            Some(ot) => match ot.ty {
                TyV::Array(el) => Some(nn(*el)),
                _ => None,
            },
            None => None,
        },
        ExprV::Cast { ty, .. } => Some(SemaTypeV { ty: base_ty_spec(ty.base), nullable: ty.nullable }),
        ExprV::Unary { op, expr, .. } => match op {
            UnaryOp::Not => Some(nn(TyV::Bool)),
            UnaryOp::Neg => cg_type(cs, fs, env, *expr),
        },
        ExprV::Binary { op, lhs, rhs, .. } => if is_comparison(op) {
            Some(nn(TyV::Bool))
        } else {
            match (cg_type(cs, fs, env, *lhs), cg_type(cs, fs, env, *rhs)) {
                (Some(lt), Some(rt)) => if op is Add && lt.ty is Str && rt.ty is Str {
                    Some(nn(TyV::Str))
                } else {
                    cg_unify(*lhs, lt, *rhs, rt)
                },
                _ => None,
            }
        },
        ExprV::Assign { target, .. } => cg_target_type(cs, fs, env, *target),
    }
}

/// Whether `e` is an expression whose code is made whenever LLVM makes each
/// instruction asked of it: integer, `bool` and character literals, variables and
/// `self` in scope, `print` of such an expression of a printable type, and
/// operators on such operands: `not` on a `bool`, `-` on a number, `and`/`or` on
/// two `bool`s, arithmetic and orderings on two numbers of one type, and `==`/`!=`
/// on two values of one number, `bool` or class type, none of them nullable.
pub open spec fn cg_plain<P>(cs: Seq<ClassInfoV>, fs: Seq<FuncSigV>, env: Seq<CgScopeV<P>>, e: ExprV) -> bool
    decreases e,
{
    match e {
        ExprV::IntLit(_) => true,
        ExprV::BoolLit(_) => true,
        ExprV::CharLit(_) => true,
        ExprV::Ident(n) => cg_lookup(env, n) is Some,
        ExprV::SelfExpr => cg_lookup(env, "self"@) is Some,
        ExprV::Grouping(inner) => cg_plain(cs, fs, env, *inner),
        ExprV::Call { callee, args, .. } => *callee == ExprV::Ident("print"@) && lookup_func(fs, "print"@) is None
            && args.len() >= 1 && cg_plain(cs, fs, env, args[0]) && match cg_type(cs, fs, env, args[0]) {
            Some(t) => !t.nullable && print_format_spec(t.ty) is Some,
            None => false,
        },
        ExprV::Unary { op, expr, .. } => cg_plain(cs, fs, env, *expr) && match cg_type(cs, fs, env, *expr) {
            Some(t) => !t.nullable && match op {
                UnaryOp::Not => t.ty is Bool,
                UnaryOp::Neg => is_numeric_ty(t.ty),
            },
            None => false,
        },
        ExprV::Binary { op, lhs, rhs, .. } => cg_plain(cs, fs, env, *lhs) && cg_plain(cs, fs, env, *rhs) && match (
            cg_type(cs, fs, env, *lhs),
            cg_type(cs, fs, env, *rhs),
        ) {
            (Some(lt), Some(rt)) => lt.ty == rt.ty && !lt.nullable && !rt.nullable && if op is And || op is Or {
                lt.ty is Bool
            } else if op is Eq || op is NotEq {
                is_numeric_ty(lt.ty) || lt.ty is Bool || lt.ty is Class
            } else {
                is_numeric_ty(lt.ty)
            },
            _ => false,
        },
        _ => false,
    }
}

/// Whether condition `c` is a `bool` expression of `cg_plain`.
pub open spec fn cg_plain_cond<P>(cs: Seq<ClassInfoV>, fs: Seq<FuncSigV>, env: Seq<CgScopeV<P>>, c: ExprV) -> bool {
    cg_plain(cs, fs, env, c) && cg_type(cs, fs, env, c) == Some(nn(TyV::Bool))
}

/// Whether statement `s` has its code made whenever LLVM makes each instruction
/// asked of it, in scopes `env`, inside a loop where `in_loop` holds, in a function
/// that returns `ret`: an expression statement of `cg_plain`, a `return` of nothing
/// or of such an expression of the return type's own type, `break` and `continue`
/// inside a loop, and `if` and `while` on conditions of `cg_plain_cond` whose bodies
/// hold only such statements. Declarations and `for` are not among them.
pub open spec fn cg_plain_stmt<P>(
    cs: Seq<ClassInfoV>,
    fs: Seq<FuncSigV>,
    env: Seq<CgScopeV<P>>,
    s: StmtV,
    ret: SemaTypeV,
    in_loop: bool,
) -> bool
    decreases s, 2nat,
{
    match s {
        StmtV::Expr(e) => cg_plain(cs, fs, env, e),
        StmtV::Return { value, .. } => match value {
            Some(e) => cg_plain(cs, fs, env, e) && (cg_type(cs, fs, env, e) matches Some(t) && t.ty == ret.ty),
            None => true,
        },
        StmtV::Break { .. } => in_loop,
        StmtV::Continue { .. } => in_loop,
        StmtV::If(_) => cg_plain_if(cs, fs, env, s, ret, in_loop),
        StmtV::While(w) => cg_plain_cond(cs, fs, env, w.cond) && cg_plain_block(
            cs,
            fs,
            env.push(Seq::empty()),
            w.body,
            0,
            ret,
            true,
        ),
        _ => false,
    }
}

/// `cg_plain_stmt` of an `if`: each branch, and the `else` body, in a scope of its own.
pub open spec fn cg_plain_if<P>(
    cs: Seq<ClassInfoV>,
    fs: Seq<FuncSigV>,
    env: Seq<CgScopeV<P>>,
    s: StmtV,
    ret: SemaTypeV,
    in_loop: bool,
) -> bool
    decreases s, 1nat,
{
    match s {
        StmtV::If(ifs) => cg_plain_branches(cs, fs, env, ifs.branches, 0, ret, in_loop) && match ifs.else_body {
            Some(b) => cg_plain_block(cs, fs, env.push(Seq::empty()), b, 0, ret, in_loop),
            None => true,
        },
        _ => false,
    }
}

/// `cg_plain_stmt` of the statements `ss[i..]`.
pub open spec fn cg_plain_block<P>(
    cs: Seq<ClassInfoV>,
    fs: Seq<FuncSigV>,
    env: Seq<CgScopeV<P>>,
    ss: Seq<StmtV>,
    i: nat,
    ret: SemaTypeV,
    in_loop: bool,
) -> bool
    decreases ss, (ss.len() - i) as nat,
{
    i >= ss.len() || (cg_plain_stmt(cs, fs, env, ss[i as int], ret, in_loop) && cg_plain_block(cs, fs, env, ss, i + 1, ret, in_loop))
}

/// `cg_plain_cond` of the conditions of branches `bs[i..]`, and `cg_plain_block` of
/// their bodies, each in a scope of its own.
pub open spec fn cg_plain_branches<P>(
    cs: Seq<ClassInfoV>,
    fs: Seq<FuncSigV>,
    env: Seq<CgScopeV<P>>,
    bs: Seq<(ExprV, Seq<StmtV>)>,
    i: nat,
    ret: SemaTypeV,
    in_loop: bool,
) -> bool
    decreases bs, (bs.len() - i) as nat,
{
    i >= bs.len() || (cg_plain_cond(cs, fs, env, bs[i as int].0) && cg_plain_block(
        cs,
        fs,
        env.push(Seq::empty()),
        bs[i as int].1,
        0,
        ret,
        in_loop,
    ) && cg_plain_branches(cs, fs, env, bs, i + 1, ret, in_loop))
}

/// The type of the storage that an assignment target names.
pub open spec fn cg_target_type<P>(cs: Seq<ClassInfoV>, fs: Seq<FuncSigV>, env: Seq<CgScopeV<P>>, t: ExprV) -> Option<SemaTypeV>
    decreases t,
{
    match t {
        ExprV::Ident(n) => match cg_lookup(env, n) {
            Some(b) => Some(b.1),
            None => None,
        },
        ExprV::Member { object, name, .. } => match cg_type(cs, fs, env, *object) {
            Some(ot) => match ot.ty {
                TyV::Class(c) => field_type(cs, c, name),
                _ => None,
            },
            None => None,
        },
        ExprV::Index { object, .. } => match cg_type(cs, fs, env, *object) {
            Some(ot) => match ot.ty {
                TyV::Array(el) => Some(nn(*el)),
                _ => None,
            },
            None => None,
        },
        _ => None,
    }
}

/// The type of a variable that a declaration binds: the written type, else the
/// type of the value.
pub open spec fn var_decl_type<P>(
    cs: Seq<ClassInfoV>,
    fs: Seq<FuncSigV>,
    env: Seq<CgScopeV<P>>,
    ty: Option<TypeV>,
    value: ExprV,
) -> SemaTypeV {
    match ty {
        Some(t) => SemaTypeV { ty: base_ty_spec(t.base), nullable: t.nullable },
        None => cg_type(cs, fs, env, value)->Some_0,
    }
}

} // verus!
