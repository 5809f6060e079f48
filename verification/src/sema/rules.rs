//! The static rules of JavaGX, as functions of the syntax tree's view: the type of
//! each expression, the effect of each statement on the scopes, and the first error
//! (by its line) where a rule is broken.

use vstd::prelude::*;

use crate::parser::ast::{AssignOp, BinaryOp, ExprV, FuncDeclV, ParamV, StmtV, UnaryOp, VarKind, ClassDeclV};
use crate::sema::class_table::{
    base_vis_chain, class_table_spec, field_chain, method_chain, params_ok, resolved, ret_ok, ret_type,
    ClassInfoV,
};
use crate::sema::{fail, SemaErrorV};
use crate::text::decimal;
use crate::sema::env::{env_define, env_fresh, env_lookup, lemma_lookup_after_define, BindingV, ScopeV};
use crate::sema::types::{
    is_float_ty, is_integer_ty, is_numeric_ty, nn, resolve_type_spec, sema_type_text, ty_text, unknown_type_msg, SemaTypeV, TyV,
};

verus! {

/// The signature of a top-level function.
pub struct FuncSigV {
    pub name: Seq<char>,
    pub param_names: Seq<Seq<char>>,
    pub param_types: Seq<SemaTypeV>,
    pub ret: SemaTypeV,
    pub line: int,
}

/// What the checker knows of the program: its classes and its functions.
pub struct Ctx {
    pub cs: Seq<ClassInfoV>,
    pub fs: Seq<FuncSigV>,
}

pub open spec fn class_names(cs: Seq<ClassInfoV>) -> Seq<Seq<char>> {
    cs.map_values(|c: ClassInfoV| c.name)
}

/// The first position at or after `i` of a function named `n`.
pub open spec fn func_index_from(fs: Seq<FuncSigV>, n: Seq<char>, i: nat) -> Option<nat>
    decreases fs.len() - i,
{
    if i >= fs.len() {
        None
    } else if fs[i as int].name == n {
        Some(i)
    } else {
        func_index_from(fs, n, i + 1)
    }
}

pub open spec fn lookup_func(fs: Seq<FuncSigV>, n: Seq<char>) -> Option<FuncSigV> {
    match func_index_from(fs, n, 0) {
        Some(i) => Some(fs[i as int]),
        None => None,
    }
}

pub open spec fn field_of(cs: Seq<ClassInfoV>, c: Seq<char>, f: Seq<char>) -> Option<crate::sema::class_table::FieldInfoV> {
    field_chain(cs, c, f, cs.len() + 1)
}

pub open spec fn method_of(cs: Seq<ClassInfoV>, c: Seq<char>, m: Seq<char>) -> Option<crate::sema::class_table::MethodSigV> {
    method_chain(cs, c, m, cs.len() + 1)
}

pub open spec fn func_sig_spec(names: Seq<Seq<char>>, f: FuncDeclV) -> FuncSigV {
    FuncSigV {
        name: f.name,
        param_names: f.params.map_values(|p: ParamV| p.name),
        param_types: f.params.map_values(|p: ParamV| resolved(names, p.ty)),
        ret: ret_type(names, f.ret_ty),
        line: f.line,
    }
}

/// The signatures of the functions among `items[i..]`, after those in `acc`, or the
/// error of the first function declared twice or naming an unknown type.
pub open spec fn func_table_from(items: Seq<StmtV>, i: nat, acc: Seq<FuncSigV>, names: Seq<Seq<char>>) -> Result<
    Seq<FuncSigV>, SemaErrorV>
    decreases items.len() - i,
{
    if i >= items.len() {
        Ok(acc)
    } else {
        match items[i as int] {
            StmtV::FuncDecl(f) => if acc.map_values(|x: FuncSigV| x.name).contains(f.name) {
                Err(fail(f.line, "함수 '"@ + f.name + "'가 중복 선언되었습니다"@ + ""@ + ""@))
            } else if !params_ok(names, f.params) {
                Err(fail(f.line, crate::sema::class_table::unknown_param_msg(names, f.params, 0)))
            } else if !ret_ok(names, f.ret_ty) {
                Err(fail(f.line, unknown_type_msg(f.ret_ty->Some_0)))
            } else {
                func_table_from(items, i + 1, acc.push(func_sig_spec(names, f)), names)
            },
            _ => func_table_from(items, i + 1, acc, names),
        }
    }
}

/// The table of top-level functions of a program whose class names are `names`.
pub open spec fn func_table_spec(items: Seq<StmtV>, names: Seq<Seq<char>>) -> Result<Seq<FuncSigV>, SemaErrorV> {
    func_table_from(items, 0, Seq::empty(), names)
}

// ---------------------------------------------------------------------------
// Compatibility of types
// ---------------------------------------------------------------------------

/// Whether `e` is a literal (possibly in parentheses) that may take type `target`:
/// an integer literal any numeric type, a float literal any float type.
pub open spec fn literal_compatible(e: ExprV, target: TyV) -> bool
    decreases e,
{
    match e {
        ExprV::IntLit(_) => is_numeric_ty(target),
        ExprV::FloatLit(_) => is_float_ty(target),
        ExprV::Grouping(inner) => literal_compatible(*inner, target),
        _ => false,
    }
}

/// Whether value `value`, of type `vt`, may be stored where `declared` is expected.
pub open spec fn assignable(declared: SemaTypeV, value: ExprV, vt: SemaTypeV) -> bool {
    if vt.ty is NullLit {
        declared.nullable
    } else if vt.ty is EmptyArrayLit {
        declared.ty is Array
    } else if declared.ty == vt.ty {
        !vt.nullable || declared.nullable
    } else {
        literal_compatible(value, declared.ty)
    }
}

/// The common type of the operands of an arithmetic or comparison operator.
pub open spec fn unify_numeric(le: ExprV, lt: SemaTypeV, re: ExprV, rt: SemaTypeV) -> Option<SemaTypeV> {
    if lt.nullable || rt.nullable {
        None
    } else if !is_numeric_ty(lt.ty) || !is_numeric_ty(rt.ty) {
        None
    } else if lt.ty == rt.ty {
        Some(nn(lt.ty))
    } else if literal_compatible(le, rt.ty) {
        Some(nn(rt.ty))
    } else if literal_compatible(re, lt.ty) {
        Some(nn(lt.ty))
    } else {
        None
    }
}

/// Whether two operands may be compared with `==` or `!=`.
pub open spec fn equality_ok(le: ExprV, lt: SemaTypeV, re: ExprV, rt: SemaTypeV) -> bool {
    lt.ty is NullLit || rt.ty is NullLit || lt.ty == rt.ty || literal_compatible(le, rt.ty)
        || literal_compatible(re, lt.ty)
}

pub open spec fn binary_type(op: BinaryOp, le: ExprV, lt: SemaTypeV, re: ExprV, rt: SemaTypeV) -> Option<SemaTypeV> {
    match op {
        BinaryOp::Add => if lt.ty is Str && rt.ty is Str && !lt.nullable && !rt.nullable {
            Some(nn(TyV::Str))
        } else {
            unify_numeric(le, lt, re, rt)
        },
        BinaryOp::Sub | BinaryOp::Mul | BinaryOp::Div | BinaryOp::Mod => unify_numeric(le, lt, re, rt),
        BinaryOp::Lt | BinaryOp::LtEq | BinaryOp::Gt | BinaryOp::GtEq => match unify_numeric(le, lt, re, rt) {
            Some(_) => Some(nn(TyV::Bool)),
            None => None,
        },
        BinaryOp::Eq | BinaryOp::NotEq => if equality_ok(le, lt, re, rt) {
            Some(nn(TyV::Bool))
        } else {
            None
        },
        BinaryOp::And | BinaryOp::Or => if lt == nn(TyV::Bool) && rt == nn(TyV::Bool) {
            Some(nn(TyV::Bool))
        } else {
            None
        },
    }
}

pub open spec fn unary_type(op: UnaryOp, t: SemaTypeV) -> Option<SemaTypeV> {
    match op {
        UnaryOp::Not => if t == nn(TyV::Bool) {
            Some(nn(TyV::Bool))
        } else {
            None
        },
        UnaryOp::Neg => if is_numeric_ty(t.ty) && !t.nullable {
            Some(t)
        } else {
            None
        },
    }
}

/// Casts are between non-nullable numeric types only.
pub open spec fn cast_type(from: SemaTypeV, to: SemaTypeV) -> Option<SemaTypeV> {
    if from.nullable || to.nullable || !is_numeric_ty(from.ty) || !is_numeric_ty(to.ty) {
        None
    } else {
        Some(to)
    }
}

/// The element type of an indexing: a non-nullable integer index into a non-nullable array.
pub open spec fn index_type(ot: SemaTypeV, it: SemaTypeV) -> Option<SemaTypeV> {
    if !is_integer_ty(it.ty) || it.nullable {
        None
    } else {
        match ot.ty {
            TyV::Array(elem) => if ot.nullable {
                None
            } else {
                Some(nn(*elem))
            },
            _ => None,
        }
    }
}

/// The class of a non-nullable class-typed value.
pub open spec fn require_class(t: SemaTypeV) -> Option<Seq<char>> {
    if t.nullable {
        None
    } else {
        match t.ty {
            TyV::Class(n) => Some(n),
            _ => None,
        }
    }
}

/// Whether code in class `cur` may use a member that `owner` declares with visibility `is_pub`.
pub open spec fn visible(is_pub: bool, owner: Seq<char>, cur: Option<Seq<char>>) -> bool {
    is_pub || cur == Some(owner)
}

/// The type of field `name` of a value of type `ot`; an array has only `length`.
pub open spec fn member_type(cs: Seq<ClassInfoV>, ot: SemaTypeV, name: Seq<char>, cur: Option<Seq<char>>) -> Option<SemaTypeV> {
    match ot.ty {
        TyV::Array(_) => if ot.nullable {
            None
        } else if name == "length"@ {
            Some(nn(TyV::I64))
        } else {
            None
        },
        _ => match require_class(ot) {
            None => None,
            Some(c) => match field_of(cs, c, name) {
                Some(f) => if visible(f.is_pub, f.owner, cur) {
                    Some(f.ty)
                } else {
                    None
                },
                None => None,
            },
        },
    }
}

/// Why operands of types `lt` and `rt` have no common numeric type.
pub open spec fn unify_error(le: ExprV, lt: SemaTypeV, re: ExprV, rt: SemaTypeV) -> Seq<char> {
    if lt.nullable || rt.nullable {
        "nullable 값은 산술/비교 연산에 직접 사용할 수 없습니다"@
    } else if !is_numeric_ty(lt.ty) {
        "숫자 타입이 아닙니다: "@ + sema_type_text(lt)
    } else if !is_numeric_ty(rt.ty) {
        "숫자 타입이 아닙니다: "@ + sema_type_text(rt)
    } else {
        "피연산자 타입이 일치하지 않습니다: "@ + sema_type_text(lt) + " vs "@ + sema_type_text(rt) + ""@
    }
}

/// Why binary operator `op` does not apply to operands of types `lt` and `rt`.
pub open spec fn binary_error(op: BinaryOp, le: ExprV, lt: SemaTypeV, re: ExprV, rt: SemaTypeV) -> Seq<char> {
    match op {
        BinaryOp::Add => "'+' 연산자는 숫자 타입 간 또는 str 타입 간에만 사용할 수 있습니다 (실제: "@ + sema_type_text(lt) + " + "@
            + sema_type_text(rt) + ")"@,
        BinaryOp::Eq | BinaryOp::NotEq => "'=='/'!='로 비교할 수 없는 타입입니다: "@ + sema_type_text(lt) + " vs "@
            + sema_type_text(rt) + ""@,
        BinaryOp::And | BinaryOp::Or => "'and'/'or'의 피연산자는 bool 타입이어야 합니다 (실제: "@ + sema_type_text(lt) + " , "@
            + sema_type_text(rt) + ")"@,
        _ => unify_error(le, lt, re, rt),
    }
}

/// Why unary operator `op` does not apply to a value of type `t`.
pub open spec fn unary_error(op: UnaryOp, t: SemaTypeV) -> Seq<char> {
    match op {
        UnaryOp::Not => "'not'/'!'은 bool 타입에만 사용할 수 있습니다 (실제: "@ + sema_type_text(t) + ")"@ + ""@ + ""@,
        UnaryOp::Neg => "단항 '-'는 숫자 타입에만 사용할 수 있습니다 (실제: "@ + sema_type_text(t) + ")"@ + ""@ + ""@,
    }
}

/// Why a value of type `from` cannot be cast to type `to`.
pub open spec fn cast_error(from: SemaTypeV, to: SemaTypeV) -> Seq<char> {
    if from.nullable || to.nullable {
        "nullable 값은 캐스팅할 수 없습니다 (먼저 null 검사가 필요합니다)"@
    } else {
        "타입 캐스팅은 숫자 타입 간에만 허용됩니다: "@ + sema_type_text(from) + " -> "@ + sema_type_text(to) + ""@
    }
}

/// Why a value of type `ot` cannot be indexed by a value of type `it`.
pub open spec fn index_error(ot: SemaTypeV, it: SemaTypeV) -> Seq<char> {
    if !is_integer_ty(it.ty) || it.nullable {
        "배열 인덱스는 정수 타입이어야 합니다 (실제: "@ + sema_type_text(it) + ")"@ + ""@ + ""@
    } else if ot.ty is Array {
        "nullable 배열은 null 검사 없이 인덱싱할 수 없습니다"@
    } else {
        "배열 타입이 아니므로 인덱싱할 수 없습니다: "@ + ty_text(ot.ty)
    }
}

/// Why a value of type `t` has no members: it is nullable, or not of a class type.
pub open spec fn no_class_msg(t: SemaTypeV) -> Seq<char> {
    if t.nullable {
        "nullable 값 '"@ + sema_type_text(t) + "'은(는) null 검사 없이 멤버에 접근할 수 없습니다"@ + ""@ + ""@
    } else {
        "'"@ + ty_text(t.ty) + "' 타입에는 멤버가 없습니다"@ + ""@ + ""@
    }
}

/// Why field `name` of a value of type `ot` cannot be read inside class `cur`, where
/// `member_type` finds no type for it.
pub open spec fn member_error(cs: Seq<ClassInfoV>, ot: SemaTypeV, name: Seq<char>, cur: Option<Seq<char>>) -> Seq<char> {
    match ot.ty {
        TyV::Array(_) => if ot.nullable {
            "nullable 배열은 null 검사 없이 멤버에 접근할 수 없습니다"@
        } else {
            "배열에는 'length' 외의 필드가 없습니다: '"@ + name + "'"@ + ""@ + ""@
        },
        _ => match require_class(ot) {
            None => no_class_msg(ot),
            Some(c) => match field_of(cs, c, name) {
                Some(f) => "private 필드에 접근할 수 없습니다: '"@ + f.owner + "."@ + name + "'"@,
                None => if method_of(cs, c, name) is Some {
                    "'"@ + name + "'는 메서드입니다. 호출하려면 '()'가 필요합니다"@ + ""@ + ""@
                } else {
                    "클래스 '"@ + c + "'에 정의되지 않은 필드입니다: '"@ + name + "'"@
                },
            },
        },
    }
}

/// The line that an error about expression `e` is reported at, where `e` has one.
pub open spec fn expr_line(e: ExprV) -> int
    decreases e,
{
    match e {
        ExprV::New { line, .. } => line,
        ExprV::Call { line, .. } => line,
        ExprV::Member { line, .. } => line,
        ExprV::Index { line, .. } => line,
        ExprV::Cast { line, .. } => line,
        ExprV::Unary { line, .. } => line,
        ExprV::Binary { line, .. } => line,
        ExprV::Assign { line, .. } => line,
        ExprV::Grouping(inner) => expr_line(*inner),
        _ => 0,
    }
}

/// `o`'s value, or else an error at `line` with message `m`.
pub open spec fn opt_err<T>(o: Option<T>, line: int, m: Seq<char>) -> Result<T, SemaErrorV> {
    match o {
        Some(x) => Ok(x),
        None => Err(fail(line, m)),
    }
}

// ---------------------------------------------------------------------------
// Expressions
// ---------------------------------------------------------------------------

/// The type of expression `e` in scopes `env`, inside class `cur`, or the first
/// error in it.
pub open spec fn expr_type(g: Ctx, env: Seq<ScopeV>, e: ExprV, cur: Option<Seq<char>>) -> Result<SemaTypeV, SemaErrorV>
    decreases e, 2nat,
{
    match e {
        ExprV::IntLit(_) => Ok(nn(TyV::I32)),
        ExprV::FloatLit(_) => Ok(nn(TyV::F64)),
        ExprV::StringLit(_) => Ok(nn(TyV::Str)),
        ExprV::CharLit(_) => Ok(nn(TyV::Char)),
        ExprV::BoolLit(_) => Ok(nn(TyV::Bool)),
        ExprV::Null => Ok(SemaTypeV { ty: TyV::NullLit, nullable: true }),
        ExprV::SelfExpr => match env_lookup(env, "self"@) {
            Some(b) => Ok(b.ty),
            None => Err(fail(0, "'self'는 메서드 내부에서만 사용할 수 있습니다"@)),
        },
        ExprV::Ident(n) => match env_lookup(env, n) {
            Some(b) => Ok(b.ty),
            None => Err(fail(0, "정의되지 않은 변수입니다: '"@ + n + "'"@ + ""@ + ""@)),
        },
        ExprV::Grouping(inner) => expr_type(g, env, *inner, cur),
        ExprV::New { .. } => new_type(g, env, e, cur),
        ExprV::Call { .. } => call_type(g, env, e, cur),
        ExprV::Member { object, name, line } => match expr_type(g, env, *object, cur) {
            Err(l) => Err(l),
            Ok(ot) => match member_type(g.cs, ot, name, cur) {
                Some(t) => Ok(t),
                None => Err(fail(line, member_error(g.cs, ot, name, cur))),
            },
        },
        ExprV::ArrayLit { .. } => array_type(g, env, e, cur),
        ExprV::Index { object, index, line } => match expr_type(g, env, *object, cur) {
            Err(l) => Err(l),
            Ok(ot) => match expr_type(g, env, *index, cur) {
                Err(l) => Err(l),
                Ok(it) => opt_err(index_type(ot, it), line, index_error(ot, it)),
            },
        },
        ExprV::Cast { expr, ty, line } => match expr_type(g, env, *expr, cur) {
            Err(l) => Err(l),
            Ok(from) => match resolve_type_spec(class_names(g.cs), ty) {
                None => Err(fail(line, unknown_type_msg(ty))),
                Some(to) => opt_err(cast_type(from, to), line, cast_error(from, to)),
            },
        },
        ExprV::Unary { op, expr, line } => match expr_type(g, env, *expr, cur) {
            Err(l) => Err(l),
            Ok(t) => opt_err(unary_type(op, t), line, unary_error(op, t)),
        },
        ExprV::Binary { op, lhs, rhs, line } => match expr_type(g, env, *lhs, cur) {
            Err(l) => Err(l),
            Ok(lt) => match expr_type(g, env, *rhs, cur) {
                Err(l) => Err(l),
                Ok(rt) => opt_err(binary_type(op, *lhs, lt, *rhs, rt), line, binary_error(op, *lhs, lt, *rhs, rt)),
            },
        },
        ExprV::Assign { .. } => assign_type(g, env, e, cur),
    }
}

/// Checks arguments `args[i..]` against parameter types `params[i..]`.
pub open spec fn args_ok(
    g: Ctx,
    env: Seq<ScopeV>,
    params: Seq<SemaTypeV>,
    args: Seq<ExprV>,
    i: nat,
    line: int,
    cur: Option<Seq<char>>,
    what: Seq<char>,
) -> Result<(), SemaErrorV>
    decreases args, (args.len() - i) as nat,
{
    if i >= args.len() || i >= params.len() {
        Ok(())
    } else {
        match expr_type(g, env, args[i as int], cur) {
            Err(l) => Err(l),
            Ok(at) => if !assignable(params[i as int], args[i as int], at) {
                Err(
                    fail(
                        line,
                        "'"@ + what + "'의 "@ + decimal((i + 1) as nat) + "번째 인자 타입이 일치하지 않습니다: 기대 "@ + sema_type_text(
                            params[i as int],
                        ) + ", 실제 "@ + sema_type_text(at),
                    ),
                )
            } else {
                args_ok(g, env, params, args, i + 1, line, cur, what)
            },
        }
    }
}

/// Checks a call's arguments: their number, then each in turn.
pub open spec fn call_args_ok(
    g: Ctx,
    env: Seq<ScopeV>,
    params: Seq<SemaTypeV>,
    args: Seq<ExprV>,
    line: int,
    cur: Option<Seq<char>>,
    what: Seq<char>,
) -> Result<(), SemaErrorV>
    decreases args, args.len() + 1,
{
    if params.len() != args.len() {
        Err(
            fail(
                line,
                "'"@ + what + "' 호출의 인자 개수가 일치하지 않습니다: 기대 "@ + decimal(params.len()) + "개, 실제 "@ + decimal(
                    args.len(),
                ) + "개"@,
            ),
        )
    } else {
        args_ok(g, env, params, args, 0, line, cur, what)
    }
}

pub open spec fn new_type(g: Ctx, env: Seq<ScopeV>, e: ExprV, cur: Option<Seq<char>>) -> Result<SemaTypeV, SemaErrorV>
    decreases e, 1nat,
{
    match e {
        ExprV::New { class_name, args, line } => {
            if crate::sema::class_table::lookup_class(g.cs, class_name) is None {
                Err(fail(line, "정의되지 않은 클래스입니다: '"@ + class_name + "'"@ + ""@ + ""@))
            } else {
                let r = match method_of(g.cs, class_name, "init"@) {
                    Some(ctor) => call_args_ok(g, env, ctor.param_types, args, line, cur, "생성자"@),
                    None => if args.len() != 0 {
                        Err(fail(line, "클래스 '"@ + class_name + "'에는 생성자(init)가 없어 인자를 받을 수 없습니다"@ + ""@ + ""@))
                    } else {
                        Ok(())
                    },
                };
                match r {
                    Err(l) => Err(l),
                    Ok(_) => Ok(nn(TyV::Class(class_name))),
                }
            }
        },
        _ => Err(fail(0, "생성자 호출이 아닙니다"@)),
    }
}

pub open spec fn call_type(g: Ctx, env: Seq<ScopeV>, e: ExprV, cur: Option<Seq<char>>) -> Result<SemaTypeV, SemaErrorV>
    decreases e, 1nat,
{
    match e {
        ExprV::Call { callee, args, line } => match *callee {
            ExprV::Member { object, name, .. } => match expr_type(g, env, *object, cur) {
                Err(l) => Err(l),
                Ok(ot) => match require_class(ot) {
                    None => Err(fail(line, no_class_msg(ot))),
                    Some(c) => match method_of(g.cs, c, name) {
                        None => Err(fail(line, "클래스 '"@ + c + "'에 정의되지 않은 메서드입니다: '"@ + name + "'"@)),
                        Some(m) => {
                            let is_pub = match base_vis_chain(g.cs, c, name, g.cs.len() + 1, None) {
                                Some(b) => b,
                                None => m.is_pub,
                            };
                            if !visible(is_pub, m.owner, cur) {
                                Err(fail(line, "private 메서드에 접근할 수 없습니다: '"@ + m.owner + "."@ + name + "'"@))
                            } else {
                                match call_args_ok(g, env, m.param_types, args, line, cur, name) {
                                    Err(l) => Err(l),
                                    Ok(_) => Ok(m.ret),
                                }
                            }
                        },
                    },
                },
            },
            ExprV::Ident(name) => if name == "print"@ && lookup_func(g.fs, "print"@) is None {
                if args.len() != 1 {
                    Err(fail(line, "print()는 정확히 1개의 인자를 받습니다"@))
                } else {
                    match expr_type(g, env, args[0], cur) {
                        Err(l) => Err(l),
                        Ok(_) => Ok(nn(TyV::Void)),
                    }
                }
            } else {
                match lookup_func(g.fs, name) {
                    None => Err(fail(line, "정의되지 않은 함수입니다: '"@ + name + "'"@ + ""@ + ""@)),
                    Some(f) => match call_args_ok(g, env, f.param_types, args, line, cur, name) {
                        Err(l) => Err(l),
                        Ok(_) => Ok(f.ret),
                    },
                }
            },
            _ => Err(fail(line, "호출할 수 없는 표현식입니다"@)),
        },
        _ => Err(fail(0, "호출이 아닙니다"@)),
    }
}

/// Checks elements `elems[i..]` of an array literal against the first element's type.
pub open spec fn elems_ok(
    g: Ctx,
    env: Seq<ScopeV>,
    first: SemaTypeV,
    elems: Seq<ExprV>,
    i: nat,
    line: int,
    cur: Option<Seq<char>>,
) -> Result<(), SemaErrorV>
    decreases elems, (elems.len() - i) as nat,
{
    if i >= elems.len() {
        Ok(())
    } else {
        match expr_type(g, env, elems[i as int], cur) {
            Err(l) => Err(l),
            Ok(t) => if !assignable(first, elems[i as int], t) {
                Err(fail(line, "배열 원소의 타입이 일치하지 않습니다: "@ + sema_type_text(first) + " vs "@ + sema_type_text(t) + ""@))
            } else {
                elems_ok(g, env, first, elems, i + 1, line, cur)
            },
        }
    }
}

pub open spec fn array_type(g: Ctx, env: Seq<ScopeV>, e: ExprV, cur: Option<Seq<char>>) -> Result<SemaTypeV, SemaErrorV>
    decreases e, 1nat,
{
    match e {
        ExprV::ArrayLit { elements, line } => if elements.len() == 0 {
            Ok(SemaTypeV { ty: TyV::EmptyArrayLit, nullable: false })
        } else {
            match expr_type(g, env, elements[0], cur) {
                Err(l) => Err(l),
                Ok(first) => if first.nullable {
                    Err(fail(line, "배열 원소는 nullable 타입일 수 없습니다"@))
                } else {
                    match elems_ok(g, env, first, elements, 1, line, cur) {
                        Err(l) => Err(l),
                        Ok(_) => Ok(nn(TyV::Array(Box::new(first.ty)))),
                    }
                },
            }
        },
        _ => Err(fail(0, "배열 리터럴이 아닙니다"@)),
    }
}

/// The type of an assignment's target.
pub open spec fn target_type(g: Ctx, env: Seq<ScopeV>, e: ExprV, cur: Option<Seq<char>>) -> Result<SemaTypeV, SemaErrorV>
    decreases e, 0nat,
{
    match e {
        ExprV::Assign { target, line, .. } => match *target {
            ExprV::Ident(n) => match env_lookup(env, n) {
                None => Err(fail(line, "정의되지 않은 변수입니다: '"@ + n + "'"@ + ""@ + ""@)),
                Some(b) => if !b.mutable {
                    Err(
                        fail(
                            line,
                            "'"@ + n + "'은(는) 재대입할 수 없습니다 (let/const로 선언됨, var를 사용하세요)"@ + ""@ + ""@,
                        ),
                    )
                } else {
                    Ok(b.ty)
                },
            },
            ExprV::Member { object, name, .. } => match expr_type(g, env, *object, cur) {
                Err(l) => Err(l),
                Ok(ot) => match require_class(ot) {
                    None => Err(fail(line, no_class_msg(ot))),
                    Some(c) => match field_of(g.cs, c, name) {
                        None => Err(fail(line, "클래스 '"@ + c + "'에 정의되지 않은 필드입니다: '"@ + name + "'"@)),
                        Some(f) => if !visible(f.is_pub, f.owner, cur) {
                            Err(fail(line, "private 필드에 접근할 수 없습니다: '"@ + f.owner + "."@ + name + "'"@))
                        } else {
                            Ok(f.ty)
                        },
                    },
                },
            },
            ExprV::Index { object, index, .. } => match expr_type(g, env, *object, cur) {
                Err(l) => Err(l),
                Ok(ot) => match expr_type(g, env, *index, cur) {
                    Err(l) => Err(l),
                    Ok(it) => opt_err(index_type(ot, it), line, index_error(ot, it)),
                },
            },
            _ => Err(fail(line, "대입할 수 없는 대상입니다"@)),
        },
        _ => Err(fail(0, "대입이 아닙니다"@)),
    }
}

pub open spec fn assign_type(g: Ctx, env: Seq<ScopeV>, e: ExprV, cur: Option<Seq<char>>) -> Result<SemaTypeV, SemaErrorV>
    decreases e, 1nat,
{
    match e {
        ExprV::Assign { op, value, line, .. } => match target_type(g, env, e, cur) {
            Err(l) => Err(l),
            Ok(tt) => match expr_type(g, env, *value, cur) {
                Err(l) => Err(l),
                Ok(vt) => if op != AssignOp::Assign && !is_numeric_ty(tt.ty) {
                    Err(fail(line, "복합 대입 연산자는 숫자 타입에만 사용할 수 있습니다 (실제: "@ + sema_type_text(tt) + ")"@ + ""@ + ""@))
                } else if !assignable(tt, *value, vt) {
                    Err(fail(line, "대입 타입이 일치하지 않습니다: "@ + sema_type_text(tt) + " <- "@ + sema_type_text(vt) + ""@))
                } else {
                    Ok(tt)
                },
            },
        },
        _ => Err(fail(0, "대입이 아닙니다"@)),
    }
}

// ---------------------------------------------------------------------------
// Statements
// ---------------------------------------------------------------------------

/// Checks a condition: it must be a non-nullable `bool`.
pub open spec fn cond_ok(g: Ctx, env: Seq<ScopeV>, c: ExprV, cur: Option<Seq<char>>) -> Result<(), SemaErrorV> {
    match expr_type(g, env, c, cur) {
        Err(l) => Err(l),
        Ok(t) => if t != nn(TyV::Bool) {
            Err(fail(expr_line(c), "조건식은 bool 타입이어야 합니다 (실제: "@ + sema_type_text(t) + ")"@ + ""@ + ""@))
        } else {
            Ok(())
        },
    }
}

/// The scopes after statement `s`, or the first error in it.
/// `ret` is the return type of the enclosing function, if any.
pub open spec fn stmt_result(
    g: Ctx,
    env: Seq<ScopeV>,
    s: StmtV,
    ret: Option<SemaTypeV>,
    in_loop: bool,
    cur: Option<Seq<char>>,
) -> Result<Seq<ScopeV>, SemaErrorV>
    decreases s, 2nat,
{
    match s {
        StmtV::ClassDecl(c) => Err(fail(c.line, "중첩된 class 선언은 아직 지원되지 않습니다 (최상위에서만 허용)"@)),
        StmtV::FuncDecl(f) => Err(fail(f.line, "중첩된 fn 선언은 아직 지원되지 않습니다 (최상위 또는 클래스 내부에서만 허용)"@)),
        StmtV::VarDecl(vd) => match expr_type(g, env, vd.value, cur) {
            Err(l) => Err(l),
            Ok(vt) => match vd.ty {
                Some(ann) => match resolve_type_spec(class_names(g.cs), ann) {
                    None => Err(fail(vd.line, unknown_type_msg(ann))),
                    Some(declared) => if !assignable(declared, vd.value, vt) {
                        Err(
                            fail(
                                vd.line,
                                "변수 '"@ + vd.name + "'의 선언 타입과 값의 타입이 일치하지 않습니다: "@ + sema_type_text(declared)
                                    + " vs "@ + sema_type_text(vt),
                            ),
                        )
                    } else {
                        Ok(env_define(env, vd.name, BindingV { ty: declared, mutable: vd.kind == VarKind::Var }))
                    },
                },
                None => if vt.ty is NullLit {
                    Err(
                        fail(
                            vd.line,
                            "'"@ + vd.name + "'의 타입을 추론할 수 없습니다 (null은 명시적 타입 주석이 필요합니다)"@ + ""@ + ""@,
                        ),
                    )
                } else if vt.ty is EmptyArrayLit {
                    Err(
                        fail(
                            vd.line,
                            "'"@ + vd.name + "'의 타입을 추론할 수 없습니다 (빈 배열 리터럴은 명시적 타입 주석이 필요합니다)"@ + ""@
                                + ""@,
                        ),
                    )
                } else {
                    Ok(env_define(env, vd.name, BindingV { ty: vt, mutable: vd.kind == VarKind::Var }))
                },
            },
        },
        StmtV::If(_) => if_result(g, env, s, ret, in_loop, cur),
        StmtV::While(w) => match cond_ok(g, env, w.cond, cur) {
            Err(l) => Err(l),
            Ok(_) => match block_result(g, env.push(Seq::empty()), w.body, 0, ret, true, cur) {
                Err(l) => Err(l),
                Ok(e2) => Ok(e2.drop_last()),
            },
        },
        StmtV::For(f) => match expr_type(g, env, f.iter, cur) {
            Err(l) => Err(l),
            Ok(it) => match it.ty {
                TyV::Array(elem) => if it.nullable {
                    Err(fail(f.line, "nullable 배열은 null 검사 없이 순회할 수 없습니다"@))
                } else {
                    let e1 = env_define(env.push(Seq::empty()), f.var_name, BindingV { ty: nn(*elem), mutable: true });
                    match block_result(g, e1, f.body, 0, ret, true, cur) {
                        Err(l) => Err(l),
                        Ok(e2) => Ok(e2.drop_last()),
                    }
                },
                _ => Err(fail(f.line, "for 루프의 반복 대상은 배열이어야 합니다 (실제: "@ + ty_text(it.ty) + ")"@ + ""@ + ""@)),
            },
        },
        StmtV::Return { value, line } => match ret {
            None => Err(fail(line, "함수/메서드 바깥에서는 'return'을 사용할 수 없습니다"@)),
            Some(expected) => match value {
                Some(v) => match expr_type(g, env, v, cur) {
                    Err(l) => Err(l),
                    Ok(vt) => if !assignable(expected, v, vt) {
                        Err(
                            fail(
                                line,
                                "반환 타입이 일치하지 않습니다: 기대 "@ + sema_type_text(expected) + ", 실제 "@ + sema_type_text(vt)
                                    + ""@,
                            ),
                        )
                    } else {
                        Ok(env)
                    },
                },
                None => if !(expected.ty is Void) || expected.nullable {
                    Err(fail(line, "값을 반환해야 합니다 (선언된 반환 타입: "@ + sema_type_text(expected) + ")"@ + ""@ + ""@))
                } else {
                    Ok(env)
                },
            },
        },
        StmtV::Break { line } => if !in_loop {
            Err(fail(line, "루프 바깥에서 'break'를 사용할 수 없습니다"@))
        } else {
            Ok(env)
        },
        StmtV::Continue { line } => if !in_loop {
            Err(fail(line, "루프 바깥에서 'continue'를 사용할 수 없습니다"@))
        } else {
            Ok(env)
        },
        StmtV::Expr(e) => match expr_type(g, env, e, cur) {
            Err(l) => Err(l),
            Ok(_) => Ok(env),
        },
    }
}

/// The scopes after statements `ss[i..]`.
pub open spec fn block_result(
    g: Ctx,
    env: Seq<ScopeV>,
    ss: Seq<StmtV>,
    i: nat,
    ret: Option<SemaTypeV>,
    in_loop: bool,
    cur: Option<Seq<char>>,
) -> Result<Seq<ScopeV>, SemaErrorV>
    decreases ss, (ss.len() - i) as nat,
{
    if i >= ss.len() {
        Ok(env)
    } else {
        match stmt_result(g, env, ss[i as int], ret, in_loop, cur) {
            Err(l) => Err(l),
            Ok(e2) => block_result(g, e2, ss, i + 1, ret, in_loop, cur),
        }
    }
}

/// Checks the branches `bs[i..]` of an `if`: each condition, then its body in a
/// scope of its own.
pub open spec fn branches_result(
    g: Ctx,
    env: Seq<ScopeV>,
    bs: Seq<(ExprV, Seq<StmtV>)>,
    i: nat,
    ret: Option<SemaTypeV>,
    in_loop: bool,
    cur: Option<Seq<char>>,
) -> Result<Seq<ScopeV>, SemaErrorV>
    decreases bs, (bs.len() - i) as nat,
{
    if i >= bs.len() {
        Ok(env)
    } else {
        match cond_ok(g, env, bs[i as int].0, cur) {
            Err(l) => Err(l),
            Ok(_) => match block_result(g, env.push(Seq::empty()), bs[i as int].1, 0, ret, in_loop, cur) {
                Err(l) => Err(l),
                Ok(e2) => branches_result(g, e2.drop_last(), bs, i + 1, ret, in_loop, cur),
            },
        }
    }
}

pub open spec fn if_result(
    g: Ctx,
    env: Seq<ScopeV>,
    s: StmtV,
    ret: Option<SemaTypeV>,
    in_loop: bool,
    cur: Option<Seq<char>>,
) -> Result<Seq<ScopeV>, SemaErrorV>
    decreases s, 1nat,
{
    match s {
        StmtV::If(ifs) => match branches_result(g, env, ifs.branches, 0, ret, in_loop, cur) {
            Err(l) => Err(l),
            Ok(e1) => match ifs.else_body {
                Some(b) => match block_result(g, e1.push(Seq::empty()), b, 0, ret, in_loop, cur) {
                    Err(l) => Err(l),
                    Ok(e2) => Ok(e2.drop_last()),
                },
                None => Ok(e1),
            },
        },
        _ => Err(fail(0, "if 문이 아닙니다"@)),
    }
}

/// Whether running `ss[i..]` surely returns a value: a `return` with a value, or an
/// `if` with an `else` whose every branch surely returns. Loops are not counted.
pub open spec fn block_always_returns(ss: Seq<StmtV>, i: nat) -> bool
    decreases ss, (ss.len() - i) as nat,
{
    if i >= ss.len() {
        false
    } else {
        stmt_always_returns(ss[i as int]) || block_always_returns(ss, i + 1)
    }
}

pub open spec fn stmt_always_returns(s: StmtV) -> bool
    decreases s, 2nat,
{
    match s {
        StmtV::Return { value, .. } => value is Some,
        StmtV::If(ifs) => match ifs.else_body {
            Some(b) => branches_always_return(ifs.branches, 0) && block_always_returns(b, 0),
            None => false,
        },
        _ => false,
    }
}

pub open spec fn branches_always_return(bs: Seq<(ExprV, Seq<StmtV>)>, i: nat) -> bool
    decreases bs, (bs.len() - i) as nat,
{
    if i >= bs.len() {
        true
    } else {
        block_always_returns(bs[i as int].1, 0) && branches_always_return(bs, i + 1)
    }
}

// ---------------------------------------------------------------------------
// Functions, methods, programs
// ---------------------------------------------------------------------------

/// The scopes holding the parameters `ps[i..]`, defined one by one after `env`;
/// a parameter of unknown type is an error at `line`.
pub open spec fn params_env(names: Seq<Seq<char>>, env: Seq<ScopeV>, ps: Seq<ParamV>, i: nat, line: int) -> Result<Seq<ScopeV>, SemaErrorV>
    decreases ps.len() - i,
{
    if i >= ps.len() {
        Ok(env)
    } else {
        match resolve_type_spec(names, ps[i as int].ty) {
            None => Err(fail(line, unknown_type_msg(ps[i as int].ty))),
            Some(t) => params_env(names, env_define(env, ps[i as int].name, BindingV { ty: t, mutable: true }), ps, i + 1, line),
        }
    }
}

/// The first error in a function or method `f` whose scopes start as `env`.
pub open spec fn body_error(g: Ctx, f: FuncDeclV, env: Seq<ScopeV>, cur: Option<Seq<char>>) -> Option<SemaErrorV> {
    let names = class_names(g.cs);
    match params_env(names, env, f.params, 0, f.line) {
        Err(l) => Some(l),
        Ok(e1) => if !ret_ok(names, f.ret_ty) {
            Some(fail(f.line, unknown_type_msg(f.ret_ty->Some_0)))
        } else {
            let ret = ret_type(names, f.ret_ty);
            match block_result(g, e1, f.body, 0, Some(ret), false, cur) {
                Err(l) => Some(l),
                Ok(_) => if !(ret.ty is Void) && !block_always_returns(f.body, 0) {
                    let what = if cur is Some { "메서드"@ } else { "함수"@ };
                    Some(
                        fail(
                            f.line,
                            what + " '"@ + f.name + "'의 모든 실행 경로가 값을 반환하지 않습니다 (반환 타입: "@ + sema_type_text(ret)
                                + ")"@,
                        ),
                    )
                } else {
                    None
                },
            }
        },
    }
}

/// The scopes a method starts with: `self`, when it takes it, bound to its class.
pub open spec fn method_env(class_name: Seq<char>, m: FuncDeclV) -> Seq<ScopeV> {
    if m.has_self {
        env_define(env_fresh(), "self"@, BindingV { ty: nn(TyV::Class(class_name)), mutable: false })
    } else {
        env_fresh()
    }
}

/// The first error in the methods `c.methods[j..]`.
pub open spec fn methods_error(g: Ctx, c: ClassDeclV, j: nat) -> Option<SemaErrorV>
    decreases c.methods.len() - j,
{
    if j >= c.methods.len() {
        None
    } else {
        match body_error(g, c.methods[j as int], method_env(c.name, c.methods[j as int]), Some(c.name)) {
            Some(l) => Some(l),
            None => methods_error(g, c, j + 1),
        }
    }
}

/// The scopes after one top-level item: a class or function leaves them as they
/// are once its bodies check; a statement runs in them.
#[verifier::opaque]
pub open spec fn item_step(g: Ctx, env: Seq<ScopeV>, item: StmtV) -> Result<Seq<ScopeV>, SemaErrorV> {
    match item {
        StmtV::ClassDecl(c) => match methods_error(g, c, 0) {
            Some(l) => Err(l),
            None => Ok(env),
        },
        StmtV::FuncDecl(f) => match body_error(g, f, env_fresh(), None) {
            Some(l) => Err(l),
            None => Ok(env),
        },
        other => stmt_result(g, env, other, None, false, None),
    }
}

/// Checks the top-level items `items[i..]`, in order, with `env` the scopes of the
/// top-level statements before them.
pub open spec fn items_result(g: Ctx, env: Seq<ScopeV>, items: Seq<StmtV>, i: nat) -> Result<(), SemaErrorV>
    decreases items.len() - i,
{
    if i >= items.len() {
        Ok(())
    } else {
        match item_step(g, env, items[i as int]) {
            Err(l) => Err(l),
            Ok(e2) => items_result(g, e2, items, i + 1),
        }
    }
}

/// The class and function tables of a program whose every rule holds, or the first
/// error: in the class table, in the function table, then in the items in order.
pub open spec fn analyze_spec(items: Seq<StmtV>) -> Result<(Seq<ClassInfoV>, Seq<FuncSigV>), SemaErrorV> {
    match class_table_spec(items) {
        Err(l) => Err(l),
        Ok(cs) => match func_table_spec(items, class_names(cs)) {
            Err(l) => Err(l),
            Ok(fs) => match items_result(Ctx { cs, fs }, env_fresh(), items, 0) {
                Err(l) => Err(l),
                Ok(_) => Ok((cs, fs)),
            },
        },
    }
}

// ---------------------------------------------------------------------------
// Laws of the rules
// ---------------------------------------------------------------------------

/// An `if` surely returns only when it has an `else`, and then only when the `else`
/// and every branch surely return: an `if` without `else` may fall through.
pub proof fn lemma_if_returns_needs_else(s: StmtV)
    requires
        s is If,
        stmt_always_returns(s),
    ensures
        s->If_0.else_body matches Some(b) && block_always_returns(b, 0) && branches_always_return(s->If_0.branches, 0),
{
}

/// Whether `s` is a `return` with a value or an `if` with an `else`.
pub open spec fn value_return_or_if_else(s: StmtV) -> bool {
    match s {
        StmtV::Return { value, .. } => value is Some,
        StmtV::If(ifs) => ifs.else_body is Some,
        _ => false,
    }
}

/// A block surely returns only through one of its own statements: a `return` with a
/// value, or an `if` with an `else`.
pub proof fn lemma_block_returns_through_statement(ss: Seq<StmtV>, i: nat)
    requires
        block_always_returns(ss, i),
    ensures
        exists|j: int| i <= j < ss.len() && value_return_or_if_else(#[trigger] ss[j]),
    decreases ss.len() - i,
{
    if i < ss.len() {
        if stmt_always_returns(ss[i as int]) {
            assert(value_return_or_if_else(ss[i as int]));
        } else {
            lemma_block_returns_through_statement(ss, i + 1);
        }
    }
}

/// A function or method that declares a return value but whose body holds, at its top
/// level, neither a `return` with a value nor an `if` with an `else`, is refused: some
/// path through it ends without a value.
pub proof fn lemma_missing_return_refused(g: Ctx, f: FuncDeclV, env: Seq<ScopeV>, cur: Option<Seq<char>>)
    requires
        ret_ok(class_names(g.cs), f.ret_ty),
        !(ret_type(class_names(g.cs), f.ret_ty).ty is Void),
        forall|j: int| 0 <= j < f.body.len() ==> !value_return_or_if_else(#[trigger] f.body[j]),
    ensures
        body_error(g, f, env, cur) is Some,
{
    if block_always_returns(f.body, 0) {
        lemma_block_returns_through_statement(f.body, 0);
    }
}

/// Arithmetic and orderings never mix two number types: the common type is one of the
/// operands' own types, and operands of two different types have one only where one
/// of them is a literal.
pub proof fn lemma_no_implicit_widening(le: ExprV, lt: SemaTypeV, re: ExprV, rt: SemaTypeV)
    ensures
        unify_numeric(le, lt, re, rt) matches Some(u) ==> !u.nullable && (u.ty == lt.ty || u.ty == rt.ty)
            && is_numeric_ty(u.ty),
        lt.ty != rt.ty && !literal_compatible(le, rt.ty) && !literal_compatible(re, lt.ty) ==> unify_numeric(
            le,
            lt,
            re,
            rt,
        ) is None,
{
}

/// `null` may be stored exactly where the declared type is nullable.
pub proof fn lemma_null_needs_nullable(declared: SemaTypeV, e: ExprV)
    ensures
        assignable(declared, e, SemaTypeV { ty: TyV::NullLit, nullable: true }) == declared.nullable,
{
}

/// A nullable value is never stored where a non-nullable value of the same type is expected.
pub proof fn lemma_nullable_not_into_non_null(t: TyV, e: ExprV)
    requires
        !(t is NullLit) && !(t is EmptyArrayLit),
    ensures
        !assignable(nn(t), e, SemaTypeV { ty: t, nullable: true }),
{
}

/// `+` joins two strings, and a string with nothing else.
pub proof fn lemma_plus_on_strings(le: ExprV, re: ExprV, rt: SemaTypeV)
    ensures
        binary_type(BinaryOp::Add, le, nn(TyV::Str), re, nn(TyV::Str)) == Some(nn(TyV::Str)),
        !(rt.ty is Str) ==> binary_type(BinaryOp::Add, le, nn(TyV::Str), re, rt) is None,
{
}

/// Members are private unless declared `pub`: a field that is not `pub` is read only
/// inside the class that declares it (not in its subclasses, not elsewhere), and a
/// `pub` field anywhere.
pub proof fn lemma_private_fields(cs: Seq<ClassInfoV>, c: Seq<char>, name: Seq<char>, cur: Option<Seq<char>>)
    requires
        field_of(cs, c, name) is Some,
    ensures
        ({
            let f = field_of(cs, c, name)->Some_0;
            member_type(cs, nn(TyV::Class(c)), name, cur) == if f.is_pub || cur == Some(f.owner) {
                Some(f.ty)
            } else {
                None
            }
        }),
{
}

/// Conversions between types are written out: apart from literals, `null` and `[]`,
/// a value is stored only where its own type is expected, while `as` converts any
/// non-nullable number into any other numeric type.
pub proof fn lemma_conversions_are_explicit(declared: SemaTypeV, e: ExprV, vt: SemaTypeV)
    requires
        !(e is IntLit) && !(e is FloatLit) && !(e is Grouping),
        !(vt.ty is NullLit) && !(vt.ty is EmptyArrayLit),
    ensures
        assignable(declared, e, vt) ==> declared.ty == vt.ty,
        is_numeric_ty(vt.ty) && is_numeric_ty(declared.ty) && !vt.nullable && !declared.nullable
            ==> cast_type(vt, declared) == Some(declared),
{
}

/// A name declared with `let` or `const` is bound immutably, so assigning to it is an error.
pub proof fn lemma_let_is_immutable(
    g: Ctx,
    env: Seq<ScopeV>,
    s: StmtV,
    ret: Option<SemaTypeV>,
    in_loop: bool,
    cur: Option<Seq<char>>,
)
    requires
        env.len() >= 1,
        s matches StmtV::VarDecl(vd) && vd.kind != VarKind::Var,
        stmt_result(g, env, s, ret, in_loop, cur) is Ok,
    ensures
        env_lookup(stmt_result(g, env, s, ret, in_loop, cur)->Ok_0, s->VarDecl_0.name) matches Some(b) && !b.mutable,
{
    let vd = s->VarDecl_0;
    let vt = expr_type(g, env, vd.value, cur)->Ok_0;
    let t = match vd.ty {
        Some(ann) => resolve_type_spec(class_names(g.cs), ann)->Some_0,
        None => vt,
    };
    lemma_lookup_after_define(env, vd.name, BindingV { ty: t, mutable: false });
}

} // verus!
