//! Code for expressions. Each expression yields its value with the type given by
//! `cg_type`.

use vstd::prelude::*;

use inkwell::types::BasicTypeEnum;
use inkwell::values::{BasicMetadataValueEnum, BasicValueEnum, FloatValue, IntValue, PointerValue};

use crate::codegen::env::cg_lookup;
use crate::codegen::llvm;
use crate::codegen::llvm::Op;
use crate::codegen::instr::{arith_op, arith_op_spec, binary_instr, compound_op, cast_plan, cast_plan_spec, compare_op, compare_op_spec, print_arg_spec, CastPlan, PrintArg, PrintUse};
use crate::codegen::types::{field_position, field_slot, has_llvm_type, is_signed, layout_index, sema_ty_to_llvm, str_struct_type};
use crate::codegen::typing::{cg_plain, cg_target_type, cg_type, cg_unify, field_type};
use crate::codegen::{is_literal_expr, is_llvm_error, is_llvm_fail, llvm_fail, print_format, print_format_spec, sema_type_of, Codegen, CodegenError, FnCtx, TypedValue};
use crate::codegen::layout::entries_view;
use crate::lexer::token::text_eq;
use crate::lexer::{digits_value, is_digit};
use crate::parser::ast::{exprs_view, expr_view, type_view, lemma_exprs_view, AssignOp, BinaryOp, Expr, ExprV, UnaryOp};
use crate::sema::class_table::types_view;
use crate::sema::rules::lookup_func;
use crate::sema::types::{is_float_ty, nn, sema_type_text, SemaType, SemaTypeV, Ty, TyV};
use crate::text::{push_str, text};

verus! {

/// The number of bytes that UTF-8 takes for `c`.
pub open spec fn utf8_width(c: char) -> nat {
    if (c as u32) < 0x80 {
        1
    } else if (c as u32) < 0x800 {
        2
    } else if (c as u32) < 0x10000 {
        3
    } else {
        4
    }
}

/// The number of bytes that UTF-8 takes for `s`.
pub open spec fn utf8_len(s: Seq<char>) -> nat
    decreases s.len(),
{
    if s.len() == 0 {
        0
    } else {
        utf8_len(s.drop_last()) + utf8_width(s.last())
    }
}

/// A prefix takes no more bytes than the whole.
proof fn lemma_utf8_len_prefix(s: Seq<char>, k: int)
    requires
        0 <= k <= s.len(),
    ensures
        utf8_len(s.take(k)) <= utf8_len(s),
    decreases s.len() - k,
{
    if k < s.len() {
        lemma_utf8_len_prefix(s, k + 1);
        assert(s.take(k + 1).drop_last() =~= s.take(k));
    } else {
        assert(s.take(k) =~= s);
    }
}

/// The length in bytes of the UTF-8 encoding of `s`; `None` where it does not fit
/// in 64 bits.
pub fn utf8_length(s: &str) -> (r: Option<u64>)
    ensures
        r matches Some(n) ==> n == utf8_len(s@),
        r is None <==> utf8_len(s@) > u64::MAX,
{
    let cs = crate::lexer::token::chars_of(s);
    let mut n: u64 = 0;
    let mut i: usize = 0;
    while i < cs.len()
        invariant
            i <= cs.len(),
            cs@ == s@,
            n == utf8_len(s@.take(i as int)),
        decreases cs.len() - i,
    {
        let c = cs[i] as u32;
        let w: u64 = if c < 0x80 {
            1
        } else if c < 0x800 {
            2
        } else if c < 0x10000 {
            3
        } else {
            4
        };
        proof {
            assert(s@.take(i + 1).drop_last() =~= s@.take(i as int));
        }
        n = match n.checked_add(w) {
            Some(m) => m,
            None => {
                proof {
                    lemma_utf8_len_prefix(s@, i + 1);
                }
                return None;
            },
        };
        i += 1;
    }
    assert(s@.take(i as int) =~= s@);
    Some(n)
}

/// One character of a decimal literal read into the state (digits kept as one integer,
/// digits kept after the point, integer digits left out, point passed): a digit is
/// kept while the integer has room for it and fewer than 19 digits follow the point;
/// an integer digit that finds no room is counted as a factor of ten.
pub open spec fn decimal_step(st: (int, int, int, bool), c: char) -> (int, int, int, bool) {
    let (m, sc, d, ap) = st;
    if c == '.' {
        (m, sc, d, true)
    } else if is_digit(c) {
        if m <= (u64::MAX - 9) / 10 && sc < 19 {
            (m * 10 + (c as int - '0' as int), if ap { sc + 1 } else { sc }, d, ap)
        } else if !ap && d < u64::MAX {
            (m, sc, d + 1, ap)
        } else {
            st
        }
    } else {
        st
    }
}

/// The state after reading all of `cs`.
pub open spec fn decimal_read(cs: Seq<char>) -> (int, int, int, bool)
    decreases cs.len(),
{
    if cs.len() == 0 {
        (0, 0, 0, false)
    } else {
        decimal_step(decimal_read(cs.drop_last()), cs.last())
    }
}

/// The decimal digits of `cs`, in order.
pub open spec fn digits_of(cs: Seq<char>) -> Seq<char>
    decreases cs.len(),
{
    if cs.len() == 0 {
        Seq::empty()
    } else if is_digit(cs.last()) {
        digits_of(cs.drop_last()).push(cs.last())
    } else {
        digits_of(cs.drop_last())
    }
}

/// How many digits of `cs` follow a point.
pub open spec fn fraction_digits(cs: Seq<char>) -> int
    decreases cs.len(),
{
    if cs.len() == 0 {
        0
    } else if is_digit(cs.last()) && cs.drop_last().contains('.') {
        fraction_digits(cs.drop_last()) + 1
    } else {
        fraction_digits(cs.drop_last())
    }
}

pub open spec fn pow10_spec(k: nat) -> nat
    decreases k,
{
    if k == 0 {
        1
    } else {
        10 * pow10_spec((k - 1) as nat)
    }
}

proof fn lemma_pow10_mono(i: nat, k: nat)
    requires
        i <= k,
    ensures
        pow10_spec(i) <= pow10_spec(k),
    decreases k,
{
    if i < k {
        lemma_pow10_mono(i, (k - 1) as nat);
    }
}

proof fn lemma_digits_below(s: Seq<char>)
    requires
        forall|k: int| 0 <= k < s.len() ==> is_digit(#[trigger] s[k]),
    ensures
        0 <= digits_value(s) < pow10_spec(s.len()),
    decreases s.len(),
{
    if s.len() > 0 {
        lemma_digits_below(s.drop_last());
    }
}

proof fn lemma_digits_of(cs: Seq<char>)
    ensures
        forall|k: int| 0 <= k < digits_of(cs).len() ==> is_digit(#[trigger] digits_of(cs)[k]),
        0 <= fraction_digits(cs) <= digits_of(cs).len(),
    decreases cs.len(),
{
    if cs.len() > 0 {
        lemma_digits_of(cs.drop_last());
    }
}

/// Reading a literal of at most 18 digits keeps every digit: the integer is the value
/// of all the digits, the scale the number of digits after the point, and nothing is
/// left out.
proof fn lemma_short_decimal(cs: Seq<char>)
    requires
        digits_of(cs).len() <= 18,
    ensures
        decimal_read(cs) == (digits_value(digits_of(cs)), fraction_digits(cs), 0int, cs.contains('.')),
    decreases cs.len(),
{
    if cs.len() > 0 {
        let p = cs.drop_last();
        let c = cs.last();
        assert(digits_of(p).len() <= digits_of(cs).len());
        lemma_short_decimal(p);
        lemma_digits_of(p);
        assert(cs.contains('.') == (p.contains('.') || c == '.')) by {
            if c == '.' {
                assert(cs[cs.len() - 1] == '.');
            }
            if p.contains('.') {
                let k = choose|k: int| 0 <= k < p.len() && p[k] == '.';
                assert(cs[k] == '.');
            }
            if cs.contains('.') && c != '.' {
                let k = choose|k: int| 0 <= k < cs.len() && cs[k] == '.';
                assert(p[k] == '.');
            }
        }
        if is_digit(c) {
            lemma_digits_below(digits_of(p));
            lemma_pow10_mono(digits_of(p).len(), 17);
            assert(pow10_spec(17) == 100000000000000000) by {
                reveal_with_fuel(pow10_spec, 18);
            }
            assert(digits_of(cs).drop_last() =~= digits_of(p));
        }
    }
}

/// The parts of a decimal literal `d.ddd`: the digits read as one integer, the
/// number of them after the point, and the number of integer digits left out
/// because the integer would not fit in 64 bits (each a factor of ten).
pub fn decimal_parts(s: &str) -> (r: (u64, u32, u64))
    ensures
        ({
            let st = decimal_read(s@);
            &&& r.0 == st.0
            &&& r.1 == st.1
            &&& r.2 == st.2
        }),
        digits_of(s@).len() <= 18 ==> r.0 == digits_value(digits_of(s@)) && r.1 == fraction_digits(s@) && r.2 == 0,
{
    let cs = crate::lexer::token::chars_of(s);
    let mut mantissa: u64 = 0;
    let mut scale: u32 = 0;
    let mut dropped: u64 = 0;
    let mut after_point = false;
    let mut i: usize = 0;
    while i < cs.len()
        invariant
            i <= cs.len(),
            cs@ == s@,
            decimal_read(s@.take(i as int)) == (mantissa as int, scale as int, dropped as int, after_point),
            scale <= 19,
        decreases cs.len() - i,
    {
        assert(s@.take(i + 1).drop_last() =~= s@.take(i as int));
        assert(s@.take(i + 1).last() == cs@[i as int]);
        let c = cs[i];
        if c == '.' {
            after_point = true;
        } else if '0' <= c && c <= '9' {
            let d = (c as u32 - '0' as u32) as u64;
            if mantissa <= (u64::MAX - 9) / 10 && scale < 19 {
                mantissa = mantissa * 10 + d;
                if after_point {
                    scale = scale + 1;
                }
            } else if !after_point && dropped < u64::MAX {
                dropped = dropped + 1;
            }
        }
        i += 1;
    }
    assert(s@.take(i as int) =~= s@);
    proof {
        if digits_of(s@).len() <= 18 {
            lemma_short_decimal(s@);
        }
    }
    (mantissa, scale, dropped)
}

/// Ten to the power `k`, where it fits in 64 bits.
fn pow10(k: u32) -> (r: Option<u64>)
    ensures
        match r {
            Some(x) => x == pow10_spec(k as nat),
            None => pow10_spec(k as nat) > u64::MAX,
        },
{
    let mut r: u64 = 1;
    let mut i: u32 = 0;
    while i < k
        invariant
            i <= k,
            r == pow10_spec(i as nat),
        decreases k - i,
    {
        r = match r.checked_mul(10) {
            Some(x) => x,
            None => {
                proof {
                    lemma_pow10_mono((i + 1) as nat, k as nat);
                }
                return None;
            },
        };
        i += 1;
    }
    Some(r)
}

impl<'ctx> Codegen<'ctx> {
    /// The value of an expression.
    pub(crate) fn gen_expr(&self, expr: &Expr, fx: &FnCtx<'ctx>) -> (r: Result<TypedValue<'ctx>, CodegenError>)
        requires
            self.wf(),
        ensures
            r matches Ok(v) ==> cg_type(self.classes@, self.funcs@, fx.env@, expr_view(*expr)) == Some(v.ty@),
            r matches Ok(v) ==> (expr_view(*expr) matches ExprV::Binary { op, lhs, rhs, .. } ==> v.op == binary_instr(
                op,
                *lhs,
                cg_type(self.classes@, self.funcs@, fx.env@, *lhs)->Some_0,
                *rhs,
                cg_type(self.classes@, self.funcs@, fx.env@, *rhs)->Some_0,
            )),
            expr_view(*expr) is IntLit || expr_view(*expr) is BoolLit || expr_view(*expr) is CharLit || expr_view(*expr) is Null
                ==> r is Ok,
            (expr_view(*expr) is Ident || expr_view(*expr) is SelfExpr) && cg_type(self.classes@, self.funcs@, fx.env@, expr_view(*expr))
                is Some ==> (r is Ok || (r matches Err(e) && is_llvm_fail(e, 0))),
            cg_plain(self.classes@, self.funcs@, fx.env@, expr_view(*expr)) ==> (r is Ok || (r matches Err(e) && is_llvm_error(e))),
        decreases expr_view(*expr), 2nat,
    {
        match expr {
            Expr::IntLit(v) => {
                let c = llvm::const_int(llvm::i32_type(self.context).0, *v as u64, true);
                Ok(TypedValue { value: llvm::int_val(c), ty: SemaType::non_null(Ty::I32), op: None })
            },
            Expr::FloatLit(s) => {
                let f = self.float_literal(s.as_str())?;
                Ok(TypedValue { value: llvm::float_val(f), ty: SemaType::non_null(Ty::F64), op: None })
            },
            Expr::BoolLit(b) => {
                let bit: u64 = if *b { 1 } else { 0 };
                let c = llvm::const_int(llvm::bool_type(self.context).0, bit, false);
                Ok(TypedValue { value: llvm::int_val(c), ty: SemaType::non_null(Ty::Bool), op: None })
            },
            Expr::CharLit(ch) => {
                let code: u32 = *ch as u32;
                let c = llvm::const_int(llvm::i32_type(self.context).0, code as u64, false);
                Ok(TypedValue { value: llvm::int_val(c), ty: SemaType::non_null(Ty::Char), op: None })
            },
            Expr::StringLit(s) => {
                let v = self.string_value(s.as_str())?;
                Ok(TypedValue { value: v, ty: SemaType::non_null(Ty::Str), op: None })
            },
            Expr::Null => {
                let p = llvm::const_null(llvm::byte_ptr_type(self.context));
                Ok(TypedValue { value: llvm::ptr_val(p), ty: SemaType::new(Ty::NullLit, true), op: None })
            },
            Expr::SelfExpr => self.gen_ident("self", fx, 0),
            Expr::Ident(name) => self.gen_ident(name.as_str(), fx, 0),
            Expr::Grouping(inner) => self.gen_expr(inner, fx),
            Expr::New { .. } => self.gen_new(expr, fx),
            Expr::Call { .. } => self.gen_call(expr, fx),
            Expr::Member { .. } => self.gen_member_read(expr, fx),
            Expr::ArrayLit { .. } => self.gen_array_lit(expr, fx),
            Expr::Index { .. } => {
                let (p, ty) = self.array_elem_ptr(expr, fx)?;
                let line = match expr {
                    Expr::Index { line, .. } => *line,
                    _ => 0,
                };
                match llvm::load(&self.builder, p, "idx") {
                    Some(v) => Ok(TypedValue { value: v, ty, op: None }),
                    None => Err(llvm_fail(line)),
                }
            },
            Expr::Cast { expr: inner, ty, line } => {
                proof {
                    assert(expr_view(*expr) == ExprV::Cast { expr: Box::new(expr_view(**inner)), ty: type_view(*ty), line: *line as int });
                    assert(decreases_to!(expr_view(*expr) => expr_view(*expr)->Cast_expr));
                }
                let v = self.gen_expr(inner, fx)?;
                let target = sema_type_of(ty);
                let (x, _) = self.numeric_cast(v, &target, *line)?;
                Ok(x)
            },
            Expr::Unary { .. } => self.gen_unary(expr, fx),
            Expr::Binary { .. } => self.gen_binary(expr, fx),
            Expr::Assign { .. } => self.gen_assign(expr, fx),
        }
    }

    /// A float literal's value: its digits as an integer, scaled by powers of ten.
    fn float_literal(&self, s: &str) -> (r: Result<FloatValue<'ctx>, CodegenError>) {
        let (mantissa, scale, dropped) = decimal_parts(s);
        let f64t = llvm::f64_type(self.context).0;
        let i64t = llvm::i64_type(self.context).0;
        let mut v = match llvm::value_of(llvm::unsigned_int_to_float(&self.builder, llvm::const_int(i64t, mantissa, false), f64t, "flit")) {
            Some(x) => x,
            None => return Err(llvm_fail(0)),
        };
        let ten = match llvm::value_of(llvm::unsigned_int_to_float(&self.builder, llvm::const_int(i64t, 10, false), f64t, "ten")) {
            Some(x) => x,
            None => return Err(llvm_fail(0)),
        };
        let mut k: u64 = 0;
        while k < dropped
            decreases dropped - k,
        {
            v = match llvm::value_of(llvm::float_mul(&self.builder, v, ten, "flit")) {
                Some(x) => x,
                None => return Err(llvm_fail(0)),
            };
            k += 1;
        }
        if scale > 0 {
            let p = match pow10(scale) {
                Some(p) => p,
                None => return Err(llvm_fail(0)),
            };
            let denom = match llvm::value_of(llvm::unsigned_int_to_float(&self.builder, llvm::const_int(i64t, p, false), f64t, "scale")) {
                Some(x) => x,
                None => return Err(llvm_fail(0)),
            };
            v = match llvm::value_of(llvm::float_div(&self.builder, v, denom, "flit")) {
                Some(x) => x,
                None => return Err(llvm_fail(0)),
            };
        }
        Ok(v)
    }

    /// A `{ i8*, i64 }` pair from a data pointer and a length.
    fn slice_value(&self, data: BasicValueEnum<'ctx>, len: IntValue<'ctx>, line: usize) -> (r: Result<BasicValueEnum<'ctx>, CodegenError>)
        ensures
            r matches Err(e) ==> is_llvm_fail(e, line),
    {
        let s0 = match llvm::insert(&self.builder, llvm::struct_undef(str_struct_type(self.context)), data, 0, "s0") {
            Some(x) => x,
            None => return Err(llvm_fail(line)),
        };
        match llvm::insert(&self.builder, s0, llvm::int_val(len), 1, "s1") {
            Some(x) => Ok(llvm::struct_val(x)),
            None => Err(llvm_fail(line)),
        }
    }

    /// A string literal: a global copy of its text and its length in bytes.
    fn string_value(&self, s: &str) -> (r: Result<BasicValueEnum<'ctx>, CodegenError>)
        ensures
            utf8_len(s@) > u64::MAX ==> r is Err,
    {
        let p = match llvm::global_string(&self.builder, s, "str_lit") {
            Some((p, _)) => p,
            None => return Err(llvm_fail(0)),
        };
        let n = match utf8_length(s) {
            Some(n) => n,
            None => return Err(CodegenError { message: text("문자열 리터럴이 너무 깁니다"), line: 0 }),
        };
        let len = llvm::const_int(llvm::i64_type(self.context).0, n, false);
        self.slice_value(llvm::ptr_val(p), len, 0)
    }

    /// The value of a variable: a load from its slot.
    fn gen_ident(&self, name: &str, fx: &FnCtx<'ctx>, line: usize) -> (r: Result<TypedValue<'ctx>, CodegenError>)
        ensures
            r matches Ok(v) ==> cg_lookup(fx.env@, name@) matches Some(b) && b.1 == v.ty@,
            cg_lookup(fx.env@, name@) is Some ==> (r is Ok || (r matches Err(e) && is_llvm_fail(e, line))),
            cg_lookup(fx.env@, name@) is None ==> (r matches Err(e) && e.line == line && e.message@ == "정의되지 않은 변수입니다: '"@
                + name@ + "'"@),
    {
        let entry = match fx.env.lookup(name) {
            Some(e) => e,
            None => {
                let mut m = text("정의되지 않은 변수입니다: '");
                push_str(&mut m, name);
                push_str(&mut m, "'");
                return Err(CodegenError { message: m, line });
            },
        };
        match llvm::load(&self.builder, entry.value, name) {
            Some(v) => Ok(TypedValue { value: v, ty: entry.ty.duplicate(), op: None }),
            None => Err(llvm_fail(line)),
        }
    }

    /// Argument values, each converted to the parameter type at its position (as
    /// many as both lists have), after `first` where there is one.
    fn gen_args(
        &self,
        args: &Vec<Expr>,
        params: &Vec<SemaType>,
        first: Option<BasicMetadataValueEnum<'ctx>>,
        line: usize,
        fx: &FnCtx<'ctx>,
    ) -> (r: Result<Vec<BasicMetadataValueEnum<'ctx>>, CodegenError>)
        requires
            self.wf(),
        ensures
            r matches Ok(out) ==> out@.len() == (if first is Some { 1int } else { 0int }) + if args@.len() < params@.len() {
                args@.len() as int
            } else {
                params@.len() as int
            },
            r matches Ok(out) ==> (first matches Some(f) ==> out@[0] == f),
            args@.len() == 0 || params@.len() == 0 ==> r is Ok,
        decreases exprs_view(args@), 0nat,
    {
        proof {
            lemma_exprs_view(args@);
        }
        let ghost av = exprs_view(args@);
        let mut out: Vec<BasicMetadataValueEnum<'ctx>> = Vec::new();
        match first {
            Some(v) => out.push(v),
            None => {},
        }
        let ghost base: int = if first is Some { 1int } else { 0int };
        let mut i: usize = 0;
        while i < args.len() && i < params.len()
            invariant
                self.wf(),
                base == if first is Some { 1int } else { 0int },
                first matches Some(f) ==> out@[0] == f,
                i <= args.len(),
                i <= params.len(),
                out@.len() == base + i,
                av == exprs_view(args@),
                av.len() == args.len(),
                forall|k: int| 0 <= k < args.len() ==> #[trigger] av[k] == expr_view(args@[k]),
            decreases args.len() - i,
        {
            proof {
                assert(decreases_to!(av => av[i as int]));
            }
            let v = self.gen_expr(&args[i], fx)?;
            let c = self.coerce(v, &params[i], line)?;
            out.push(llvm::arg_val(c.value));
            i += 1;
        }
        Ok(out)
    }

    /// `new C(args)`: storage for the object from `malloc`, then `init` where the class
    /// has one (its own or inherited), with the object and the arguments.
    fn gen_new(&self, expr: &Expr, fx: &FnCtx<'ctx>) -> (r: Result<TypedValue<'ctx>, CodegenError>)
        requires
            self.wf(),
            expr_view(*expr) is New,
        ensures
            r matches Ok(v) ==> cg_type(self.classes@, self.funcs@, fx.env@, expr_view(*expr)) == Some(v.ty@),
            r is Ok ==> self.classes.name_seq().contains(expr_view(*expr)->New_class_name),
        decreases expr_view(*expr), 1nat,
    {
        match expr {
            Expr::New { class_name, args, line } => {
                let li = match layout_index(&self.layouts, class_name.as_str()) {
                    Some(i) => {
                        proof {
                            assert(self.classes.name_seq()[i as int] == class_name@);
                        }
                        i
                    },
                    None => {
                        let mut m = text("정의되지 않은 클래스입니다: '");
                        push_str(&mut m, class_name.as_str());
                        push_str(&mut m, "'");
                        return Err(CodegenError { message: m, line: *line });
                    },
                };
                let size = match llvm::struct_size(self.layouts[li].struct_ty) {
                    Some(s) => s,
                    None => return Err(CodegenError { message: text("크기를 계산할 수 없는 클래스입니다"), line: *line }),
                };
                let mut margs: Vec<BasicMetadataValueEnum<'ctx>> = Vec::new();
                margs.push(llvm::arg_val(llvm::int_val(size)));
                let raw = match llvm::call(&self.builder, self.rt.malloc, &margs, "new_raw") {
                    Some(Some(v)) => v,
                    _ => return Err(llvm_fail(*line)),
                };
                match self.classes.resolve_method(class_name.as_str(), "init") {
                    Some(ctor) => {
                        let func = self.method_named(ctor.owner.as_str(), "init", *line)?;
                        proof {
                            assert(expr_view(*expr) == ExprV::New { class_name: class_name@, args: exprs_view(args@), line: *line as int });
                            assert(decreases_to!(expr_view(*expr) => expr_view(*expr)->New_args));
                        }
                        let call_args = self.gen_args(args, &ctor.param_types, Some(llvm::arg_val(raw)), *line, fx)?;
                        if llvm::call(&self.builder, func, &call_args, "ctor_call").is_none() {
                            return Err(llvm_fail(*line));
                        }
                    },
                    None => {},
                }
                Ok(TypedValue { value: raw, ty: SemaType::non_null(Ty::Class(class_name.clone())), op: None })
            },
            _ => Err(CodegenError { message: text("생성자 호출이 아닙니다"), line: 0 }),
        }
    }

    /// The value that a call of a function returning nothing leaves in place.
    fn void_placeholder(&self) -> BasicValueEnum<'ctx> {
        llvm::int_val(llvm::const_int(llvm::bool_type(self.context).0, 0, false))
    }

    /// A call: of a method on an object, of the built-in `print` (where the program
    /// defines no function of that name), or of a top-level function.
    fn gen_call(&self, expr: &Expr, fx: &FnCtx<'ctx>) -> (r: Result<TypedValue<'ctx>, CodegenError>)
        requires
            self.wf(),
            expr_view(*expr) is Call,
        ensures
            r matches Ok(v) ==> cg_type(self.classes@, self.funcs@, fx.env@, expr_view(*expr)) == Some(v.ty@),
            (expr_view(*expr)->Call_callee == ExprV::Ident("print"@) && lookup_func(self.funcs@, "print"@) is None
                && expr_view(*expr)->Call_args.len() == 0) ==> r is Err,
            cg_plain(self.classes@, self.funcs@, fx.env@, expr_view(*expr)) ==> (r is Ok || (r matches Err(e) && is_llvm_error(e))),
        decreases expr_view(*expr), 1nat,
    {
        match expr {
            Expr::Call { callee, args, line } => match &**callee {
                Expr::Member { object, name, .. } => {
                    proof {
                        let ev = expr_view(*expr);
                        let cv = expr_view(**callee);
                        assert(cv == ExprV::Member { object: Box::new(expr_view(**object)), name: name@, line: cv->Member_line });
                        assert(decreases_to!(ev => cv));
                        assert(decreases_to!(cv => expr_view(**object)));
                        assert(ev == ExprV::Call { callee: Box::new(cv), args: exprs_view(args@), line: *line as int });
                        assert(decreases_to!(ev => ev->Call_args));
                    }
                    let obj = self.gen_expr(object, fx)?;
                    let cls = self.expect_class(&obj.ty, *line)?;
                    let method = match self.classes.resolve_method(cls.as_str(), name.as_str()) {
                        Some(m) => m,
                        None => {
                            let mut m = text("클래스 '");
                            push_str(&mut m, cls.as_str());
                            push_str(&mut m, "'에 정의되지 않은 메서드입니다: '");
                            push_str(&mut m, name.as_str());
                            push_str(&mut m, "'");
                            return Err(CodegenError { message: m, line: *line });
                        },
                    };
                    let func = self.method_named(method.owner.as_str(), name.as_str(), *line)?;
                    let call_args = self.gen_args(args, &method.param_types, Some(llvm::arg_val(obj.value)), *line, fx)?;
                    let value = match llvm::call(&self.builder, func, &call_args, "mcall") {
                        Some(Some(v)) => v,
                        Some(None) => self.void_placeholder(),
                        None => return Err(llvm_fail(*line)),
                    };
                    Ok(TypedValue { value, ty: method.ret.duplicate(), op: None })
                },
                Expr::Ident(name) => {
                    proof {
                        assert(expr_view(**callee) == ExprV::Ident(name@));
                        lemma_exprs_view(args@);
                        assert(expr_view(*expr) == ExprV::Call {
                            callee: Box::new(expr_view(**callee)),
                            args: exprs_view(args@),
                            line: *line as int,
                        });
                        assert(decreases_to!(expr_view(*expr) => expr_view(*expr)->Call_args));
                    }
                    if text_eq(name.as_str(), "print") && !self.funcs.contains_key("print") {
                        if args.len() == 0 {
                            return Err(CodegenError { message: text("print()는 정확히 1개의 인자를 받습니다"), line: *line });
                        }
                        proof {
                            assert(decreases_to!(exprs_view(args@) => exprs_view(args@)[0]));
                        }
                        let v = self.gen_expr(&args[0], fx)?;
                        self.gen_print(v, *line)?;
                        return Ok(TypedValue { value: self.void_placeholder(), ty: SemaType::non_null(Ty::Void), op: None });
                    }
                    let sig = match self.funcs.get(name.as_str()) {
                        Some(f) => f,
                        None => {
                            let mut m = text("정의되지 않은 함수입니다: '");
                            push_str(&mut m, name.as_str());
                            push_str(&mut m, "'");
                            return Err(CodegenError { message: m, line: *line });
                        },
                    };
                    let func = self.function_named(name.as_str(), *line)?;
                    let call_args = self.gen_args(args, &sig.param_types, None, *line, fx)?;
                    let value = match llvm::call(&self.builder, func, &call_args, "call") {
                        Some(Some(v)) => v,
                        Some(None) => self.void_placeholder(),
                        None => return Err(llvm_fail(*line)),
                    };
                    Ok(TypedValue { value, ty: sig.ret.duplicate(), op: None })
                },
                _ => Err(CodegenError { message: text("호출할 수 없는 표현식입니다"), line: *line }),
            },
            _ => Err(CodegenError { message: text("호출이 아닙니다"), line: 0 }),
        }
    }

    /// `print(v)`: one line on standard output, through `printf` with the format for
    /// the value's type (`print_format_spec`) and the value as `print_arg_spec` hands
    /// it over; the result tells how it was handed over. A nullable value, or one of a
    /// type without a format (classes, arrays), is refused at `line`; any other error
    /// is an instruction that LLVM did not make.
    pub(crate) fn gen_print(&self, v: TypedValue<'ctx>, line: usize) -> (r: Result<PrintUse, CodegenError>)
        ensures
            v.ty@.nullable ==> r is Err,
            print_format_spec(v.ty@.ty) is None ==> r is Err,
            r matches Ok(u) ==> print_arg_spec(v.ty@.ty) == Some(u.arg) && print_format_spec(v.ty@.ty) == Some(u.format@)
                && (v.ty@.ty is Bool <==> u.bool_texts is Some) && (u.bool_texts matches Some((t, f)) ==> t@ == "true\n"@
                && f@ == "false\n"@),
            !v.ty@.nullable && print_format_spec(v.ty@.ty) is Some ==> (r matches Err(e) ==> is_llvm_fail(e, line)),
    {
        if v.ty.nullable {
            return Err(
                CodegenError { message: text("print()는 nullable 값을 직접 출력할 수 없습니다 (null 검사가 필요합니다)"), line },
            );
        }
        let fmt = match print_format(&v.ty.ty) {
            Some(f) => f,
            None => {
                let mut m = text("print()는 현재 '");
                push_str(&mut m, v.ty.ty.to_text().as_str());
                push_str(&mut m, "' 타입을 지원하지 않습니다 (stdlib 후속 버전에서 지원 예정)");
                return Err(CodegenError { message: m, line });
            },
        };
        let (fmt_ptr, fmt_text) = match llvm::global_string(&self.builder, fmt.as_str(), "print_fmt") {
            Some(p) => p,
            None => return Err(llvm_fail(line)),
        };
        let mut bool_texts: Option<(String, String)> = None;
        let mut args: Vec<BasicMetadataValueEnum<'ctx>> = Vec::new();
        args.push(llvm::arg_val(llvm::ptr_val(fmt_ptr)));
        let i64t = llvm::i64_type(self.context).0;
        let how = match &v.ty.ty {
            Ty::Str => {
                let sv = match llvm::as_struct(v.value) {
                    Some(s) => s,
                    None => return Err(llvm_fail(line)),
                };
                let p = llvm::extract(&self.builder, sv, 0, "p");
                let l = llvm::extract(&self.builder, sv, 1, "l");
                let (p, l) = match (p, l) {
                    (Some(p), Some(l)) => (p, l),
                    _ => return Err(llvm_fail(line)),
                };
                let l = match llvm::as_int(l) {
                    Some(x) => x,
                    None => return Err(llvm_fail(line)),
                };
                let l32 = match llvm::value_of(llvm::int_truncate(&self.builder, l, llvm::i32_type(self.context).0, "len32")) {
                    Some(x) => x,
                    None => return Err(llvm_fail(line)),
                };
                args.push(llvm::arg_val(llvm::int_val(l32)));
                args.push(llvm::arg_val(p));
                PrintArg::Text
            },
            Ty::I8 | Ty::I16 | Ty::I32 | Ty::I64 | Ty::U8 | Ty::U16 | Ty::U32 | Ty::U64 => {
                let iv = match llvm::as_int(v.value) {
                    Some(x) => x,
                    None => return Err(llvm_fail(line)),
                };
                let ext = if is_signed(&v.ty.ty) {
                    llvm::int_s_extend(&self.builder, iv, i64t, "ext")
                } else {
                    llvm::int_z_extend(&self.builder, iv, i64t, "ext")
                };
                match ext {
                    Some((x, o)) => {
                        args.push(llvm::arg_val(llvm::int_val(x)));
                        PrintArg::Widened(o)
                    },
                    None => return Err(llvm_fail(line)),
                }
            },
            Ty::F32 | Ty::F64 => {
                let fv = match llvm::as_float(v.value) {
                    Some(x) => x,
                    None => return Err(llvm_fail(line)),
                };
                if let Ty::F32 = v.ty.ty {
                    match llvm::float_ext(&self.builder, fv, llvm::f64_type(self.context).0, "ext") {
                        Some((x, o)) => {
                            args.push(llvm::arg_val(llvm::float_val(x)));
                            PrintArg::Extended(o)
                        },
                        None => return Err(llvm_fail(line)),
                    }
                } else {
                    args.push(llvm::arg_val(llvm::float_val(fv)));
                    PrintArg::Double
                }
            },
            Ty::Bool => {
                let iv = match llvm::as_int(v.value) {
                    Some(x) => x,
                    None => return Err(llvm_fail(line)),
                };
                let t = llvm::global_string(&self.builder, "true\n", "print_true");
                let f = llvm::global_string(&self.builder, "false\n", "print_false");
                let (t, f) = match (t, f) {
                    (Some((t, tt)), Some((f, ft))) => {
                        bool_texts = Some((tt, ft));
                        (t, f)
                    },
                    _ => return Err(llvm_fail(line)),
                };
                match llvm::select(&self.builder, iv, llvm::ptr_val(t), llvm::ptr_val(f), "sel") {
                    Some(x) => args.push(llvm::arg_val(x)),
                    None => return Err(llvm_fail(line)),
                }
                PrintArg::BoolText
            },
            _ => {
                args.push(llvm::arg_val(v.value));
                PrintArg::CodePoint
            },
        };
        if llvm::call(&self.builder, self.rt.printf, &args, "printf_call").is_none() {
            return Err(llvm_fail(line));
        }
        Ok(PrintUse { arg: how, format: fmt_text, bool_texts })
    }

    /// The class of an object type.
    fn expect_class(&self, ty: &SemaType, line: usize) -> (r: Result<String, CodegenError>)
        ensures
            match r {
                Ok(c) => ty@.ty == TyV::Class(c@),
                Err(e) => !(ty@.ty is Class) && e.line == line,
            },
    {
        match &ty.ty {
            Ty::Class(c) => Ok(c.clone()),
            other => {
                let mut m = text("클래스 타입이 아닙니다: ");
                push_str(&mut m, other.to_text().as_str());
                Err(CodegenError { message: m, line })
            },
        }
    }

    /// `object.name`: an array's `length`, or a load from the object's field.
    fn gen_member_read(&self, expr: &Expr, fx: &FnCtx<'ctx>) -> (r: Result<TypedValue<'ctx>, CodegenError>)
        requires
            self.wf(),
            expr_view(*expr) is Member,
        ensures
            r matches Ok(v) ==> cg_type(self.classes@, self.funcs@, fx.env@, expr_view(*expr)) == Some(v.ty@),
        decreases expr_view(*expr), 1nat,
    {
        match expr {
            Expr::Member { object, name, line } => {
                let obj = self.gen_expr(object, fx)?;
                if let Ty::Array(_) = &obj.ty.ty {
                    if !text_eq(name.as_str(), "length") {
                        let mut m = text("배열에는 'length' 외의 필드가 없습니다: '");
                        push_str(&mut m, name.as_str());
                        push_str(&mut m, "'");
                        return Err(CodegenError { message: m, line: *line });
                    }
                    let sv = match llvm::as_struct(obj.value) {
                        Some(s) => s,
                        None => return Err(llvm_fail(*line)),
                    };
                    return match llvm::extract(&self.builder, sv, 1, "length") {
                        Some(len) => Ok(TypedValue { value: len, ty: SemaType::non_null(Ty::I64), op: None }),
                        None => Err(llvm_fail(*line)),
                    };
                }
                let (p, ty) = self.field_ptr_from(obj, name.as_str(), *line)?;
                match llvm::load(&self.builder, p, name.as_str()) {
                    Some(v) => Ok(TypedValue { value: v, ty, op: None }),
                    None => Err(llvm_fail(*line)),
                }
            },
            _ => Err(CodegenError { message: text("멤버 접근이 아닙니다"), line: 0 }),
        }
    }

    /// The address of field `name` of the object `obj` (already evaluated, so that
    /// an object expression with effects runs once).
    fn field_ptr_from(&self, obj: TypedValue<'ctx>, name: &str, line: usize) -> (r: Result<(PointerValue<'ctx>, SemaType), CodegenError>)
        requires
            self.wf(),
        ensures
            r matches Ok((p, t)) ==> obj.ty@.ty matches TyV::Class(c) && field_type(self.classes@, c, name@) == Some(t@),
    {
        let cls = self.expect_class(&obj.ty, line)?;
        let li = match layout_index(&self.layouts, cls.as_str()) {
            Some(i) => i,
            None => {
                let mut m = text("정의되지 않은 클래스입니다: '");
                push_str(&mut m, cls.as_str());
                push_str(&mut m, "'");
                return Err(CodegenError { message: m, line });
            },
        };
        let layout = &self.layouts[li];
        let j = match field_position(&layout.fields, name) {
            Some(j) => j,
            None => {
                let mut m = text("클래스 '");
                push_str(&mut m, cls.as_str());
                push_str(&mut m, "'에 정의되지 않은 필드입니다: '");
                push_str(&mut m, name);
                push_str(&mut m, "'");
                return Err(CodegenError { message: m, line });
            },
        };
        proof {
            crate::codegen::types::lemma_field_slot(entries_view(layout.fields@), name@);
            assert(entries_view(layout.fields@)[j as int] == (layout.fields@[j as int].0@, layout.fields@[j as int].1@));
        }
        let objp = match llvm::as_ptr(obj.value) {
            Some(p) => p,
            None => return Err(llvm_fail(line)),
        };
        let typed = match llvm::pointer_cast(&self.builder, objp, llvm::struct_ptr_type(layout.struct_ty), "obj") {
            Some(p) => p,
            None => return Err(llvm_fail(line)),
        };
        if j >= u32::MAX as usize {
            return Err(llvm_fail(line));
        }
        match llvm::struct_gep(&self.builder, typed, j as u32, name) {
            Some(p) => Ok((p, layout.fields[j].1.duplicate())),
            None => Err(llvm_fail(line)),
        }
    }

    /// The address of element `idx` of type `elem` in the array data at `data`.
    pub(crate) fn element_address(&self, data: PointerValue<'ctx>, idx: IntValue<'ctx>, elem: BasicTypeEnum<'ctx>, line: usize) -> (r:
        Result<PointerValue<'ctx>, CodegenError>)
        ensures
            r matches Err(e) ==> is_llvm_error(e),
    {
        let i64t = llvm::i64_type(self.context).0;
        let size = match llvm::type_size(elem) {
            Some(s) => s,
            None => return Err(llvm_fail(line)),
        };
        let base = match llvm::ptr_to_int(&self.builder, data, i64t, "base") {
            Some(x) => x,
            None => return Err(llvm_fail(line)),
        };
        let off = match llvm::value_of(llvm::int_mul(&self.builder, idx, size, "off")) {
            Some(x) => x,
            None => return Err(llvm_fail(line)),
        };
        let addr = match llvm::value_of(llvm::int_add(&self.builder, base, off, "addr")) {
            Some(x) => x,
            None => return Err(llvm_fail(line)),
        };
        match llvm::int_to_ptr(&self.builder, addr, llvm::ptr_to(elem), "elem_ptr") {
            Some(p) => Ok(p),
            None => Err(llvm_fail(line)),
        }
    }

    /// `[e1, e2, ...]`: the elements, converted to the first one's type, stored in a
    /// buffer from `malloc`; `[]` is a null pointer with length 0.
    fn gen_array_lit(&self, expr: &Expr, fx: &FnCtx<'ctx>) -> (r: Result<TypedValue<'ctx>, CodegenError>)
        requires
            self.wf(),
            expr_view(*expr) is ArrayLit,
        ensures
            r matches Ok(v) ==> cg_type(self.classes@, self.funcs@, fx.env@, expr_view(*expr)) == Some(v.ty@),
            expr_view(*expr)->ArrayLit_elements.len() > 0 && !(cg_type(
                self.classes@,
                self.funcs@,
                fx.env@,
                expr_view(*expr)->ArrayLit_elements[0],
            ) matches Some(t) && has_llvm_type(self.classes.name_seq(), t.ty)) ==> r is Err,
        decreases expr_view(*expr), 1nat,
    {
        match expr {
            Expr::ArrayLit { elements, line } => {
                let i64t = llvm::i64_type(self.context).0;
                proof {
                    lemma_exprs_view(elements@);
                }
                let ghost ev = exprs_view(elements@);
                if elements.len() == 0 {
                    let p = llvm::const_null(llvm::byte_ptr_type(self.context));
                    let v = self.slice_value(llvm::ptr_val(p), llvm::const_int(i64t, 0, false), *line)?;
                    return Ok(TypedValue { value: v, ty: SemaType::new(Ty::EmptyArrayLit, false), op: None });
                }
                proof {
                    assert(expr_view(*expr) == ExprV::ArrayLit { elements: ev, line: *line as int });
                    assert(decreases_to!(expr_view(*expr) => expr_view(*expr)->ArrayLit_elements));
                    assert(decreases_to!(ev => ev[0]));
                }
                let first = self.gen_expr(&elements[0], fx)?;
                let elem_ty = first.ty.duplicate();
                let elem_lt = match sema_ty_to_llvm(self.context, self.classes, &elem_ty) {
                    Some(t) => t,
                    None => return Err(CodegenError { message: text("값을 가질 수 없는 원소 타입입니다"), line: *line }),
                };
                let size = match llvm::type_size(elem_lt) {
                    Some(s) => s,
                    None => return Err(CodegenError { message: text("크기를 계산할 수 없는 배열 원소 타입입니다"), line: *line }),
                };
                let count = llvm::const_int(i64t, elements.len() as u64, false);
                let total = match llvm::value_of(llvm::int_mul(&self.builder, count, size, "arr_bytes")) {
                    Some(x) => x,
                    None => return Err(llvm_fail(*line)),
                };
                let mut margs: Vec<BasicMetadataValueEnum<'ctx>> = Vec::new();
                margs.push(llvm::arg_val(llvm::int_val(total)));
                let raw = match llvm::call(&self.builder, self.rt.malloc, &margs, "arr_raw") {
                    Some(Some(v)) => v,
                    _ => return Err(llvm_fail(*line)),
                };
                let rawp = match llvm::as_ptr(raw) {
                    Some(p) => p,
                    None => return Err(llvm_fail(*line)),
                };
                let mut pending: Option<TypedValue<'ctx>> = Some(first);
                let mut i: usize = 0;
                while i < elements.len()
                    invariant
                        self.wf(),
                        ev == exprs_view(elements@),
                        ev.len() == elements.len(),
                        forall|k: int| 0 <= k < elements.len() ==> #[trigger] ev[k] == expr_view(elements@[k]),
                        decreases_to!(expr_view(*expr) => ev),
                    decreases elements.len() - i,
                {
                    let v = match pending {
                        Some(v) => v,
                        None => {
                            proof {
                                assert(decreases_to!(ev => ev[i as int]));
                            }
                            self.gen_expr(&elements[i], fx)?
                        },
                    };
                    pending = None;
                    let c = self.coerce(v, &elem_ty, *line)?;
                    let idx = llvm::const_int(i64t, i as u64, false);
                    let p = self.element_address(rawp, idx, elem_lt, *line)?;
                    if !llvm::store(&self.builder, p, c.value) {
                        return Err(llvm_fail(*line));
                    }
                    i += 1;
                }
                let v = self.slice_value(raw, count, *line)?;
                Ok(TypedValue { value: v, ty: SemaType::non_null(Ty::Array(Box::new(elem_ty.ty))), op: None })
            },
            _ => Err(CodegenError { message: text("배열 리터럴이 아닙니다"), line: 0 }),
        }
    }

    /// `object[index]`: the address of the element, with the element type.
    fn array_elem_ptr(&self, expr: &Expr, fx: &FnCtx<'ctx>) -> (r: Result<(PointerValue<'ctx>, SemaType), CodegenError>)
        requires
            self.wf(),
            expr_view(*expr) is Index,
        ensures
            r matches Ok((p, t)) ==> cg_type(self.classes@, self.funcs@, fx.env@, expr_view(*expr)) == Some(t@)
                && cg_target_type(self.classes@, self.funcs@, fx.env@, expr_view(*expr)) == Some(t@),
        decreases expr_view(*expr), 0nat,
    {
        match expr {
            Expr::Index { object, index, line } => {
                proof {
                    assert(expr_view(*expr) == ExprV::Index {
                        object: Box::new(expr_view(**object)),
                        index: Box::new(expr_view(**index)),
                        line: *line as int,
                    });
                    assert(decreases_to!(expr_view(*expr) => expr_view(*expr)->Index_index));
                }
                let obj = self.gen_expr(object, fx)?;
                let elem_ty = match &obj.ty.ty {
                    Ty::Array(e) => SemaType::non_null(e.duplicate()),
                    other => {
                        let mut m = text("배열 타입이 아닙니다: ");
                        push_str(&mut m, other.to_text().as_str());
                        return Err(CodegenError { message: m, line: *line });
                    },
                };
                let idx = self.gen_expr(index, fx)?;
                if !idx.ty.is_integer() {
                    return Err(CodegenError { message: text("배열 인덱스는 정수여야 합니다"), line: *line });
                }
                let (idx64, _) = self.numeric_cast(idx, &SemaType::non_null(Ty::I64), *line)?;
                let idx64 = match llvm::as_int(idx64.value) {
                    Some(x) => x,
                    None => return Err(llvm_fail(*line)),
                };
                let sv = match llvm::as_struct(obj.value) {
                    Some(s) => s,
                    None => return Err(llvm_fail(*line)),
                };
                let data = match llvm::extract(&self.builder, sv, 0, "data") {
                    Some(d) => d,
                    None => return Err(llvm_fail(*line)),
                };
                let data = match llvm::as_ptr(data) {
                    Some(d) => d,
                    None => return Err(llvm_fail(*line)),
                };
                let elem_lt = match sema_ty_to_llvm(self.context, self.classes, &elem_ty) {
                    Some(t) => t,
                    None => return Err(CodegenError { message: text("값을 가질 수 없는 원소 타입입니다"), line: *line }),
                };
                let p = self.element_address(data, idx64, elem_lt, *line)?;
                Ok((p, elem_ty))
            },
            _ => Err(CodegenError { message: text("인덱스 접근이 아닙니다"), line: 0 }),
        }
    }

    /// `-x` and `!x`.
    fn gen_unary(&self, expr: &Expr, fx: &FnCtx<'ctx>) -> (r: Result<TypedValue<'ctx>, CodegenError>)
        requires
            self.wf(),
            expr_view(*expr) is Unary,
        ensures
            r matches Ok(v) ==> cg_type(self.classes@, self.funcs@, fx.env@, expr_view(*expr)) == Some(v.ty@),
            cg_type(self.classes@, self.funcs@, fx.env@, *expr_view(*expr)->Unary_expr) is None ==> r is Err,
            cg_plain(self.classes@, self.funcs@, fx.env@, expr_view(*expr)) ==> (r is Ok || (r matches Err(e) && is_llvm_error(e))),
        decreases expr_view(*expr), 1nat,
    {
        match expr {
            Expr::Unary { op, expr: inner, line } => {
                let v = self.gen_expr(inner, fx)?;
                match op {
                    UnaryOp::Not => {
                        let iv = match llvm::as_int(v.value) {
                            Some(x) => x,
                            None => return Err(llvm_fail(*line)),
                        };
                        match llvm::not(&self.builder, iv, "not") {
                            Some(x) => Ok(TypedValue { value: llvm::int_val(x), ty: SemaType::non_null(Ty::Bool), op: None }),
                            None => Err(llvm_fail(*line)),
                        }
                    },
                    UnaryOp::Neg => {
                        if v.ty.ty.is_integer() {
                            return match llvm::as_int(v.value) {
                                Some(iv) => match llvm::int_neg(&self.builder, iv, "neg") {
                                    Some(x) => Ok(TypedValue { value: llvm::int_val(x), ty: v.ty, op: None }),
                                    None => Err(llvm_fail(*line)),
                                },
                                None => Err(llvm_fail(*line)),
                            };
                        }
                        if v.ty.ty.is_float() {
                            return match llvm::as_float(v.value) {
                                Some(fv) => match llvm::float_neg(&self.builder, fv, "fneg") {
                                    Some(x) => Ok(TypedValue { value: llvm::float_val(x), ty: v.ty, op: None }),
                                    None => Err(llvm_fail(*line)),
                                },
                                None => Err(llvm_fail(*line)),
                            };
                        }
                        Err(CodegenError { message: text("단항 '-'는 숫자 타입에만 사용할 수 있습니다"), line: *line })
                    },
                }
            },
            _ => Err(CodegenError { message: text("단항 연산이 아닙니다"), line: 0 }),
        }
    }

    /// Binary operators: `and`/`or` on both values, equality (`gen_equality`), `+` of
    /// two strings (`jagx_str_concat`), and arithmetic and ordering on the common
    /// numeric type of the operands.
    fn gen_binary(&self, expr: &Expr, fx: &FnCtx<'ctx>) -> (r: Result<TypedValue<'ctx>, CodegenError>)
        requires
            self.wf(),
            expr_view(*expr) is Binary,
        ensures
            r matches Ok(v) ==> cg_type(self.classes@, self.funcs@, fx.env@, expr_view(*expr)) == Some(v.ty@),
            r matches Ok(v) ==> ({
                let e = expr_view(*expr);
                v.op == binary_instr(
                    e->Binary_op,
                    *e->Binary_lhs,
                    cg_type(self.classes@, self.funcs@, fx.env@, *e->Binary_lhs)->Some_0,
                    *e->Binary_rhs,
                    cg_type(self.classes@, self.funcs@, fx.env@, *e->Binary_rhs)->Some_0,
                )
            }),
            ({
                let e = expr_view(*expr);
                let lt = cg_type(self.classes@, self.funcs@, fx.env@, *e->Binary_lhs);
                let rt = cg_type(self.classes@, self.funcs@, fx.env@, *e->Binary_rhs);
                lt is None || rt is None || (!(e->Binary_op is And || e->Binary_op is Or || e->Binary_op is Eq
                    || e->Binary_op is NotEq) && !(e->Binary_op is Add && lt->Some_0.ty is Str && rt->Some_0.ty is Str)
                    && cg_unify(*e->Binary_lhs, lt->Some_0, *e->Binary_rhs, rt->Some_0) is None)
            }) ==> r is Err,
            cg_plain(self.classes@, self.funcs@, fx.env@, expr_view(*expr)) ==> (r is Ok || (r matches Err(e) && is_llvm_error(e))),
        decreases expr_view(*expr), 1nat,
    {
        match expr {
            Expr::Binary { op, lhs, rhs, line } => {
                let line = *line;
                match op {
                    BinaryOp::And | BinaryOp::Or => {
                        let l = self.gen_expr(lhs, fx)?;
                        let r = self.gen_expr(rhs, fx)?;
                        let (l, r) = match (llvm::as_int(l.value), llvm::as_int(r.value)) {
                            (Some(a), Some(b)) => (a, b),
                            _ => return Err(llvm_fail(line)),
                        };
                        let v = if let BinaryOp::And = op {
                            llvm::and(&self.builder, l, r, "and")
                        } else {
                            llvm::or(&self.builder, l, r, "or")
                        };
                        return match v {
                            Some((x, o)) => Ok(TypedValue { value: llvm::int_val(x), ty: SemaType::non_null(Ty::Bool), op: Some(o) }),
                            None => Err(llvm_fail(line)),
                        };
                    },
                    BinaryOp::Eq | BinaryOp::NotEq => {
                        return self.gen_equality(expr, fx);
                    },
                    _ => {},
                }
                let lv = self.gen_expr(lhs, fx)?;
                let rv = self.gen_expr(rhs, fx)?;
                if let BinaryOp::Add = op {
                    if let (Ty::Str, Ty::Str) = (&lv.ty.ty, &rv.ty.ty) {
                        let mut args: Vec<BasicMetadataValueEnum<'ctx>> = Vec::new();
                        args.push(llvm::arg_val(lv.value));
                        args.push(llvm::arg_val(rv.value));
                        return match llvm::call(&self.builder, self.rt.str_concat, &args, "concat") {
                            Some(Some(v)) => Ok(TypedValue { value: v, ty: SemaType::non_null(Ty::Str), op: None }),
                            _ => Err(llvm_fail(line)),
                        };
                    }
                }
                let (l, r, ty) = self.unify_numeric_values(lhs, lv, rhs, rv, line)?;
                match op {
                    BinaryOp::Add | BinaryOp::Sub | BinaryOp::Mul | BinaryOp::Div | BinaryOp::Mod => {
                        let (value, o) = self.arith(*op, l, r, &ty, line)?;
                        Ok(TypedValue { value, ty, op: Some(o) })
                    },
                    _ => {
                        let (value, o) = self.compare(*op, l, r, &ty, line)?;
                        Ok(TypedValue { value: llvm::int_val(value), ty: SemaType::non_null(Ty::Bool), op: Some(o) })
                    },
                }
            },
            _ => Err(CodegenError { message: text("이항 연산이 아닙니다"), line: 0 }),
        }
    }

    /// `==` and `!=`: against `null` a test of the pointer (an array's data pointer);
    /// two strings by content; two objects by address; else a comparison on the
    /// common type.
    fn gen_equality(&self, expr: &Expr, fx: &FnCtx<'ctx>) -> (r: Result<TypedValue<'ctx>, CodegenError>)
        requires
            self.wf(),
            expr_view(*expr) is Binary,
            expr_view(*expr)->Binary_op is Eq || expr_view(*expr)->Binary_op is NotEq,
        ensures
            r matches Ok(v) ==> v.ty@ == nn(TyV::Bool),
            r matches Ok(v) ==> ({
                let e = expr_view(*expr);
                let lt = cg_type(self.classes@, self.funcs@, fx.env@, *e->Binary_lhs)->Some_0;
                let rt = cg_type(self.classes@, self.funcs@, fx.env@, *e->Binary_rhs)->Some_0;
                if lt.ty is NullLit || rt.ty is NullLit {
                    v.op == Some(if e->Binary_op is Eq { Op::IsNull } else { Op::IsNotNull })
                } else if lt.ty is Str && rt.ty is Str {
                    v.op is None
                } else {
                    v.op == compare_op_spec(e->Binary_op, cg_unify(*e->Binary_lhs, lt, *e->Binary_rhs, rt)->Some_0.ty)
                }
            }),
            ({
                let lt = cg_type(self.classes@, self.funcs@, fx.env@, *expr_view(*expr)->Binary_lhs);
                let rt = cg_type(self.classes@, self.funcs@, fx.env@, *expr_view(*expr)->Binary_rhs);
                lt is None || rt is None || (!(lt->Some_0.ty is NullLit) && !(rt->Some_0.ty is NullLit)
                    && !(lt->Some_0.ty is Str && rt->Some_0.ty is Str) && cg_unify(
                    *expr_view(*expr)->Binary_lhs,
                    lt->Some_0,
                    *expr_view(*expr)->Binary_rhs,
                    rt->Some_0,
                ) is None)
            }) ==> r is Err,
            cg_plain(self.classes@, self.funcs@, fx.env@, expr_view(*expr)) ==> (r is Ok || (r matches Err(e) && is_llvm_error(e))),
        decreases expr_view(*expr), 0nat,
    {
        match expr {
            Expr::Binary { op, lhs, rhs, line } => {
                let line = *line;
                let is_eq = match op {
                    BinaryOp::Eq => true,
                    _ => false,
                };
                proof {
                    assert(expr_view(*expr) == ExprV::Binary {
                        op: *op,
                        lhs: Box::new(expr_view(**lhs)),
                        rhs: Box::new(expr_view(**rhs)),
                        line: line as int,
                    });
                    assert(decreases_to!(expr_view(*expr) => expr_view(*expr)->Binary_lhs));
                    assert(decreases_to!(expr_view(*expr) => expr_view(*expr)->Binary_rhs));
                }
                let lv = self.gen_expr(lhs, fx)?;
                let rv = self.gen_expr(rhs, fx)?;
                let l_null = match lv.ty.ty {
                    Ty::NullLit => true,
                    _ => false,
                };
                let r_null = match rv.ty.ty {
                    Ty::NullLit => true,
                    _ => false,
                };
                if l_null || r_null {
                    let other = if l_null { rv.value } else { lv.value };
                    let other = match llvm::as_struct(other) {
                        Some(sv) => match llvm::extract(&self.builder, sv, 0, "arr.data") {
                            Some(d) => d,
                            None => return Err(llvm_fail(line)),
                        },
                        None => other,
                    };
                    let p = match llvm::as_ptr(other) {
                        Some(p) => p,
                        None => return Err(CodegenError { message: text("null과 비교할 수 없는 값입니다"), line }),
                    };
                    let b = if is_eq {
                        llvm::is_null(&self.builder, p, "isnull")
                    } else {
                        llvm::is_not_null(&self.builder, p, "isnotnull")
                    };
                    return match b {
                        Some((x, o)) => Ok(TypedValue { value: llvm::int_val(x), ty: SemaType::non_null(Ty::Bool), op: Some(o) }),
                        None => Err(llvm_fail(line)),
                    };
                }
                if let (Ty::Str, Ty::Str) = (&lv.ty.ty, &rv.ty.ty) {
                    let b = self.gen_str_equality(is_eq, lv.value, rv.value, line)?;
                    return Ok(TypedValue { value: llvm::int_val(b), ty: SemaType::non_null(Ty::Bool), op: None });
                }
                let (l, r, ty) = self.unify_numeric_values(lhs, lv, rhs, rv, line)?;
                if let Ty::Class(_) = ty.ty {
                    let (lp, rp) = match (llvm::as_ptr(l), llvm::as_ptr(r)) {
                        (Some(a), Some(b)) => (a, b),
                        _ => return Err(llvm_fail(line)),
                    };
                    let i64t = llvm::i64_type(self.context).0;
                    let li = llvm::ptr_to_int(&self.builder, lp, i64t, "l2i");
                    let ri = llvm::ptr_to_int(&self.builder, rp, i64t, "r2i");
                    let (li, ri) = match (li, ri) {
                        (Some(a), Some(b)) => (a, b),
                        _ => return Err(llvm_fail(line)),
                    };
                    let pred = if is_eq { llvm::IntCmp::Eq } else { llvm::IntCmp::Ne };
                    proof {
                        assert(ty@.ty is Class);
                        assert(!is_float_ty(ty@.ty));
                        assert(compare_op_spec(*op, ty@.ty) == Some(Op::IntCompare(pred)));
                    }
                    return match llvm::int_compare(&self.builder, pred, li, ri, "ptrcmp") {
                        Some((x, o)) => Ok(TypedValue { value: llvm::int_val(x), ty: SemaType::non_null(Ty::Bool), op: Some(o) }),
                        None => Err(llvm_fail(line)),
                    };
                }
                let (b, o) = self.compare(*op, l, r, &ty, line)?;
                Ok(TypedValue { value: llvm::int_val(b), ty: SemaType::non_null(Ty::Bool), op: Some(o) })
            },
            _ => Err(CodegenError { message: text("이항 연산이 아닙니다"), line: 0 }),
        }
    }

    /// String equality by content: unequal lengths give false at once, else `memcmp`
    /// decides; `!=` negates the result.
    fn gen_str_equality(&self, is_eq: bool, a: BasicValueEnum<'ctx>, b: BasicValueEnum<'ctx>, line: usize) -> (r: Result<
        IntValue<'ctx>,
        CodegenError,
    >) {
        let (a, b) = match (llvm::as_struct(a), llvm::as_struct(b)) {
            (Some(x), Some(y)) => (x, y),
            _ => return Err(llvm_fail(line)),
        };
        let la = llvm::extract(&self.builder, a, 1, "la");
        let lb = llvm::extract(&self.builder, b, 1, "lb");
        let (la, lb) = match (la, lb) {
            (Some(x), Some(y)) => (x, y),
            _ => return Err(llvm_fail(line)),
        };
        let (lai, lbi) = match (llvm::as_int(la), llvm::as_int(lb)) {
            (Some(x), Some(y)) => (x, y),
            _ => return Err(llvm_fail(line)),
        };
        let len_eq = match llvm::value_of(llvm::int_compare(&self.builder, llvm::IntCmp::Eq, lai, lbi, "len_eq")) {
            Some(x) => x,
            None => return Err(llvm_fail(line)),
        };
        let function = self.current_function(line)?;
        let entry_bb = match llvm::insert_block(&self.builder) {
            Some(bb) => bb,
            None => return Err(llvm_fail(line)),
        };
        let cmp_bb = llvm::append_block(self.context, function, "streq.cmp");
        let merge_bb = llvm::append_block(self.context, function, "streq.merge");
        if !llvm::cond_br(&self.builder, len_eq, cmp_bb, merge_bb) {
            return Err(llvm_fail(line));
        }
        llvm::position_at_end(&self.builder, cmp_bb);
        let pa = llvm::extract(&self.builder, a, 0, "pa");
        let pb = llvm::extract(&self.builder, b, 0, "pb");
        let (pa, pb) = match (pa, pb) {
            (Some(x), Some(y)) => (x, y),
            _ => return Err(llvm_fail(line)),
        };
        let mut args: Vec<BasicMetadataValueEnum<'ctx>> = Vec::new();
        args.push(llvm::arg_val(pa));
        args.push(llvm::arg_val(pb));
        args.push(llvm::arg_val(la));
        let mres = match llvm::call(&self.builder, self.rt.memcmp, &args, "memcmp_call") {
            Some(Some(v)) => v,
            _ => return Err(llvm_fail(line)),
        };
        let mres = match llvm::as_int(mres) {
            Some(x) => x,
            None => return Err(llvm_fail(line)),
        };
        let zero = llvm::const_int(llvm::i32_type(self.context).0, 0, false);
        let content_eq = match llvm::value_of(llvm::int_compare(&self.builder, llvm::IntCmp::Eq, mres, zero, "content_eq")) {
            Some(x) => x,
            None => return Err(llvm_fail(line)),
        };
        if !llvm::br(&self.builder, merge_bb) {
            return Err(llvm_fail(line));
        }
        let cmp_end = match llvm::insert_block(&self.builder) {
            Some(bb) => bb,
            None => return Err(llvm_fail(line)),
        };
        llvm::position_at_end(&self.builder, merge_bb);
        let no = llvm::const_int(llvm::bool_type(self.context).0, 0, false);
        let phi = match llvm::phi(&self.builder, llvm::int_ty_basic(llvm::bool_type(self.context).0), "streq") {
            Some(x) => x,
            None => return Err(llvm_fail(line)),
        };
        llvm::add_incoming2(phi, no, entry_bb, content_eq, cmp_end);
        let eq = match llvm::as_int(llvm::phi_value(phi)) {
            Some(x) => x,
            None => return Err(llvm_fail(line)),
        };
        if is_eq {
            Ok(eq)
        } else {
            match llvm::not(&self.builder, eq, "streq.not") {
                Some(x) => Ok(x),
                None => Err(llvm_fail(line)),
            }
        }
    }

    /// The operands of an arithmetic or comparison operator on their common type: a
    /// literal operand is converted to the other operand's type.
    fn unify_numeric_values(
        &self,
        lhs: &Expr,
        lv: TypedValue<'ctx>,
        rhs: &Expr,
        rv: TypedValue<'ctx>,
        line: usize,
    ) -> (r: Result<(BasicValueEnum<'ctx>, BasicValueEnum<'ctx>, SemaType), CodegenError>)
        ensures
            r matches Ok((l, rr, t)) ==> cg_unify(expr_view(*lhs), lv.ty@, expr_view(*rhs), rv.ty@) == Some(t@),
            lv.ty@.ty == rv.ty@.ty ==> (r matches Ok((l, rr, t)) && l == lv.value && rr == rv.value && t@ == lv.ty@),
            cg_unify(expr_view(*lhs), lv.ty@, expr_view(*rhs), rv.ty@) is None ==> (r matches Err(e) && e.line == line),
    {
        if lv.ty.ty.same(&rv.ty.ty) {
            let ty = lv.ty.duplicate();
            return Ok((lv.value, rv.value, ty));
        }
        if is_literal_expr(lhs) {
            let target = rv.ty.duplicate();
            let l = self.coerce(lv, &target, line)?;
            return Ok((l.value, rv.value, target));
        }
        if is_literal_expr(rhs) {
            let target = lv.ty.duplicate();
            let r = self.coerce(rv, &target, line)?;
            return Ok((lv.value, r.value, target));
        }
        Err(CodegenError { message: text("피연산자 타입이 일치하지 않습니다 (Sema를 통과했다면 발생할 수 없음)"), line })
    }

    /// Both values as integers.
    fn int_operands(&self, l: BasicValueEnum<'ctx>, r: BasicValueEnum<'ctx>, line: usize) -> (res: Result<
        (IntValue<'ctx>, IntValue<'ctx>),
        CodegenError,
    >)
        ensures
            res matches Err(e) ==> is_llvm_fail(e, line),
    {
        match (llvm::as_int(l), llvm::as_int(r)) {
            (Some(a), Some(b)) => Ok((a, b)),
            _ => Err(llvm_fail(line)),
        }
    }

    /// Both values as floats.
    fn float_operands(&self, l: BasicValueEnum<'ctx>, r: BasicValueEnum<'ctx>, line: usize) -> (res: Result<
        (FloatValue<'ctx>, FloatValue<'ctx>),
        CodegenError,
    >)
        ensures
            res matches Err(e) ==> is_llvm_fail(e, line),
    {
        match (llvm::as_float(l), llvm::as_float(r)) {
            (Some(a), Some(b)) => Ok((a, b)),
            _ => Err(llvm_fail(line)),
        }
    }

    /// `+ - * / %` on two values of type `ty`, with the instruction it emitted: the one
    /// `arith_op_spec` picks (division and remainder of integers by the sign of `ty`).
    /// Any other operator, or a type that is neither integer nor float, is refused.
    fn arith(&self, op: BinaryOp, l: BasicValueEnum<'ctx>, r: BasicValueEnum<'ctx>, ty: &SemaType, line: usize) -> (res: Result<
        (BasicValueEnum<'ctx>, Op),
        CodegenError,
    >)
        ensures
            res matches Ok((_, o)) ==> arith_op_spec(op, ty@.ty) == Some(o),
            arith_op_spec(op, ty@.ty) is None ==> (res matches Err(e) && e.line == line),
            arith_op_spec(op, ty@.ty) is Some ==> (res matches Err(e) ==> is_llvm_fail(e, line)),
    {
        let o = match arith_op(op, &ty.ty) {
            Some(o) => o,
            None => return Err(CodegenError { message: text("산술 연산자가 아닙니다"), line }),
        };
        let b = &self.builder;
        let done = match o {
            Op::IntAdd => {
                let (x, y) = self.int_operands(l, r, line)?;
                llvm::int_tagged(llvm::int_add(b, x, y, "add"))
            },
            Op::IntSub => {
                let (x, y) = self.int_operands(l, r, line)?;
                llvm::int_tagged(llvm::int_sub(b, x, y, "sub"))
            },
            Op::IntMul => {
                let (x, y) = self.int_operands(l, r, line)?;
                llvm::int_tagged(llvm::int_mul(b, x, y, "mul"))
            },
            Op::IntSDiv => {
                let (x, y) = self.int_operands(l, r, line)?;
                llvm::int_tagged(llvm::int_signed_div(b, x, y, "div"))
            },
            Op::IntUDiv => {
                let (x, y) = self.int_operands(l, r, line)?;
                llvm::int_tagged(llvm::int_unsigned_div(b, x, y, "div"))
            },
            Op::IntSRem => {
                let (x, y) = self.int_operands(l, r, line)?;
                llvm::int_tagged(llvm::int_signed_rem(b, x, y, "rem"))
            },
            Op::IntURem => {
                let (x, y) = self.int_operands(l, r, line)?;
                llvm::int_tagged(llvm::int_unsigned_rem(b, x, y, "rem"))
            },
            Op::FloatAdd => {
                let (x, y) = self.float_operands(l, r, line)?;
                llvm::float_tagged(llvm::float_add(b, x, y, "fadd"))
            },
            Op::FloatSub => {
                let (x, y) = self.float_operands(l, r, line)?;
                llvm::float_tagged(llvm::float_sub(b, x, y, "fsub"))
            },
            Op::FloatMul => {
                let (x, y) = self.float_operands(l, r, line)?;
                llvm::float_tagged(llvm::float_mul(b, x, y, "fmul"))
            },
            Op::FloatDiv => {
                let (x, y) = self.float_operands(l, r, line)?;
                llvm::float_tagged(llvm::float_div(b, x, y, "fdiv"))
            },
            Op::FloatRem => {
                let (x, y) = self.float_operands(l, r, line)?;
                llvm::float_tagged(llvm::float_rem(b, x, y, "frem"))
            },
            _ => None,
        };
        match done {
            Some(d) => Ok(d),
            None => Err(llvm_fail(line)),
        }
    }

    /// A comparison of two values of type `ty`, with the instruction it emitted: the
    /// predicate that `compare_op_spec` picks (ordered for floats, orderings of integers by
    /// the sign of `ty`). An operator that is not a comparison is refused.
    fn compare(&self, op: BinaryOp, l: BasicValueEnum<'ctx>, r: BasicValueEnum<'ctx>, ty: &SemaType, line: usize) -> (res: Result<
        (IntValue<'ctx>, Op),
        CodegenError,
    >)
        ensures
            res matches Ok((_, o)) ==> compare_op_spec(op, ty@.ty) == Some(o),
            compare_op_spec(op, ty@.ty) is None ==> (res matches Err(e) && e.line == line),
            compare_op_spec(op, ty@.ty) is Some ==> (res matches Err(e) ==> is_llvm_fail(e, line)),
    {
        let done = match compare_op(op, &ty.ty) {
            Some(Op::IntCompare(p)) => {
                let (x, y) = self.int_operands(l, r, line)?;
                llvm::int_compare(&self.builder, p, x, y, "cmp")
            },
            Some(Op::FloatCompare(p)) => {
                let (x, y) = self.float_operands(l, r, line)?;
                llvm::float_compare(&self.builder, p, x, y, "fcmp")
            },
            _ => return Err(CodegenError { message: text("비교 연산자가 아닙니다"), line }),
        };
        match done {
            Some(d) => Ok(d),
            None => Err(llvm_fail(line)),
        }
    }

    /// `target = value` and the compound assignments: the value, converted to the
    /// target's type (combined with the current value for `+=` and the like), is
    /// stored and is the result.
    fn gen_assign(&self, expr: &Expr, fx: &FnCtx<'ctx>) -> (r: Result<TypedValue<'ctx>, CodegenError>)
        requires
            self.wf(),
            expr_view(*expr) is Assign,
        ensures
            r matches Ok(v) ==> cg_type(self.classes@, self.funcs@, fx.env@, expr_view(*expr)) == Some(v.ty@),
            cg_type(self.classes@, self.funcs@, fx.env@, *expr_view(*expr)->Assign_value) is None ==> r is Err,
            *expr_view(*expr)->Assign_value is Null ==> (cg_target_type(
                self.classes@,
                self.funcs@,
                fx.env@,
                *expr_view(*expr)->Assign_target,
            ) matches Some(t) ==> (!(t.ty is Class) && !(t.ty is Array) && !(t.ty is NullLit) ==> r is Err)),
            r matches Ok(v) ==> (expr_view(*expr)->Assign_op != AssignOp::Assign ==> v.op == arith_op_spec(
                compound_op(expr_view(*expr)->Assign_op),
                v.ty@.ty,
            )),
        decreases expr_view(*expr), 1nat,
    {
        match expr {
            Expr::Assign { op, target, value, line } => {
                let line = *line;
                proof {
                    assert(expr_view(*expr) == ExprV::Assign {
                        op: *op,
                        target: Box::new(expr_view(**target)),
                        value: Box::new(expr_view(**value)),
                        line: line as int,
                    });
                    assert(decreases_to!(expr_view(*expr) => expr_view(*expr)->Assign_target));
                    assert(decreases_to!(expr_view(*expr) => expr_view(*expr)->Assign_value));
                }
                let (p, target_ty) = self.lvalue_ptr(target, line, fx)?;
                let val = self.gen_expr(value, fx)?;
                let final_val = match op {
                    AssignOp::Assign => self.coerce(val, &target_ty, line)?,
                    _ => {
                        let current = match llvm::load(&self.builder, p, "cur") {
                            Some(v) => v,
                            None => return Err(llvm_fail(line)),
                        };
                        let rhs = self.coerce(val, &target_ty, line)?;
                        let bop = match op {
                            AssignOp::AddAssign => BinaryOp::Add,
                            AssignOp::SubAssign => BinaryOp::Sub,
                            AssignOp::MulAssign => BinaryOp::Mul,
                            _ => BinaryOp::Div,
                        };
                        proof {
                            assert(bop == compound_op(*op));
                        }
                        let (v, o) = self.arith(bop, current, rhs.value, &target_ty, line)?;
                        TypedValue { value: v, ty: target_ty.duplicate(), op: Some(o) }
                    },
                };
                if !llvm::store(&self.builder, p, final_val.value) {
                    return Err(llvm_fail(line));
                }
                Ok(final_val)
            },
            _ => Err(CodegenError { message: text("대입이 아닙니다"), line: 0 }),
        }
    }

    /// The storage an assignment target names: a variable's slot, a field or an
    /// array element.
    fn lvalue_ptr(&self, target: &Expr, line: usize, fx: &FnCtx<'ctx>) -> (r: Result<(PointerValue<'ctx>, SemaType), CodegenError>)
        requires
            self.wf(),
        ensures
            r matches Ok((p, t)) ==> cg_target_type(self.classes@, self.funcs@, fx.env@, expr_view(*target)) == Some(t@),
            expr_view(*target) matches ExprV::Ident(n) ==> match cg_lookup(fx.env@, n) {
                Some(b) => r matches Ok((p, t)) && p == b.0 && t@ == b.1,
                None => r matches Err(e) && e.line == line,
            },
        decreases expr_view(*target), 1nat,
    {
        match target {
            Expr::Ident(name) => match fx.env.lookup(name.as_str()) {
                Some(e) => Ok((e.value, e.ty.duplicate())),
                None => {
                    let mut m = text("정의되지 않은 변수입니다: '");
                    push_str(&mut m, name.as_str());
                    push_str(&mut m, "'");
                    Err(CodegenError { message: m, line })
                },
            },
            Expr::Member { object, name, .. } => {
                let obj = self.gen_expr(object, fx)?;
                self.field_ptr_from(obj, name.as_str(), line)
            },
            Expr::Index { .. } => self.array_elem_ptr(target, fx),
            _ => Err(CodegenError { message: text("지원되지 않는 대입 대상입니다"), line }),
        }
    }

    /// `v` as a value of type `target`: unchanged where the types agree, `null` as the
    /// null pointer of an object type or an array with a null data pointer and length
    /// 0, `[]` as it is, else a numeric conversion. Only objects and arrays are held
    /// through pointers, so `null` of any other type is refused.
    pub(crate) fn coerce(&self, v: TypedValue<'ctx>, target: &SemaType, line: usize) -> (r: Result<TypedValue<'ctx>, CodegenError>)
        ensures
            r matches Ok(x) ==> x.ty@ == target@,
            v.ty@.ty is NullLit && !(target@.ty is NullLit) && target@.ty is Class ==> (r is Ok <==> has_llvm_type(
                self.classes.name_seq(),
                target@.ty,
            )),
            v.ty@.ty is NullLit && !(target@.ty is NullLit) && !(target@.ty is Class) && !(target@.ty is Array) ==> (r matches Err(
                e,
            ) && e.line == line && e.message@ == "nullable 원시 타입("@ + sema_type_text(target@)
                + ")의 코드 생성은 아직 지원되지 않습니다 (null 상태를 표현할 태그 표현이 설계되지 않음)"@),
            v.ty@.ty is NullLit && target@.ty is Array ==> (r is Ok || (r matches Err(e) && is_llvm_fail(e, line))),
            v.ty@.ty == target@.ty ==> (r matches Ok(x) && x.value == v.value),
            v.ty@.ty is EmptyArrayLit ==> (r matches Ok(x) && x.value == v.value),
    {
        if v.ty.ty.same(&target.ty) {
            return Ok(TypedValue { value: v.value, ty: target.duplicate(), op: None });
        }
        if let Ty::NullLit = v.ty.ty {
            if let Ty::Array(_) = &target.ty {
                let p = llvm::const_null(llvm::byte_ptr_type(self.context));
                let zero = llvm::const_int(llvm::i64_type(self.context).0, 0, false);
                let v = self.slice_value(llvm::ptr_val(p), zero, line)?;
                return Ok(TypedValue { value: v, ty: target.duplicate(), op: None });
            }
            let is_object = match &target.ty {
                Ty::Class(name) => self.classes.contains(name.as_str()),
                _ => false,
            };
            return if is_object {
                Ok(TypedValue { value: llvm::ptr_val(llvm::const_null(llvm::byte_ptr_type(self.context))), ty: target.duplicate(), op: None })
            } else {
                let mut m = text("nullable 원시 타입(");
                push_str(&mut m, target.to_text().as_str());
                push_str(&mut m, ")의 코드 생성은 아직 지원되지 않습니다 (null 상태를 표현할 태그 표현이 설계되지 않음)");
                Err(CodegenError { message: m, line })
            };
        }
        if let Ty::EmptyArrayLit = v.ty.ty {
            return Ok(TypedValue { value: v.value, ty: target.duplicate(), op: None });
        }
        let (x, _) = self.numeric_cast(v, target, line)?;
        Ok(x)
    }

    /// A numeric conversion of `v` to `target`, with what it did: `cast_plan_spec`
    /// decides (a wider integer by sign or zero extension after the sign of the source
    /// type, a narrower one by truncation, between integers and floats by the sign of
    /// the integer side, between floats by a float cast); where it keeps the value,
    /// the value is unchanged. A pair of types with no numeric conversion is refused.
    fn numeric_cast(&self, v: TypedValue<'ctx>, target: &SemaType, line: usize) -> (r: Result<
        (TypedValue<'ctx>, CastPlan),
        CodegenError,
    >)
        ensures
            r matches Ok((x, p)) ==> x.ty@ == target@ && p == cast_plan_spec(v.ty@.ty, target@.ty) && (p is Keep
                ==> x.value == v.value),
            !has_llvm_type(self.classes.name_seq(), target@.ty) ==> (r matches Err(e) && e.line == line),
            cast_plan_spec(v.ty@.ty, target@.ty) is Unsupported ==> (r matches Err(e) && e.line == line),
    {
        let tl = match sema_ty_to_llvm(self.context, self.classes, target) {
            Some(t) => t,
            None => return Err(CodegenError { message: text("지원되지 않는 캐스팅 조합입니다"), line }),
        };
        let plan = cast_plan(&v.ty.ty, &target.ty);
        let o = match plan {
            CastPlan::Keep => return Ok((TypedValue { value: v.value, ty: target.duplicate(), op: None }, CastPlan::Keep)),
            CastPlan::Unsupported => return Err(CodegenError { message: text("지원되지 않는 캐스팅 조합입니다"), line }),
            CastPlan::Emit(o) => o,
        };
        let b = &self.builder;
        let done = match o {
            Op::SignExtend | Op::ZeroExtend | Op::Truncate => {
                let (iv, it) = match (llvm::as_int(v.value), llvm::as_int_type(tl)) {
                    (Some(a), Some(t)) => (a, t),
                    _ => return Err(llvm_fail(line)),
                };
                let r = match o {
                    Op::SignExtend => llvm::int_s_extend(b, iv, it, "cast"),
                    Op::ZeroExtend => llvm::int_z_extend(b, iv, it, "cast"),
                    _ => llvm::int_truncate(b, iv, it, "cast"),
                };
                llvm::int_tagged(r)
            },
            Op::FloatToSigned | Op::FloatToUnsigned => {
                let (fv, it) = match (llvm::as_float(v.value), llvm::as_int_type(tl)) {
                    (Some(a), Some(t)) => (a, t),
                    _ => return Err(llvm_fail(line)),
                };
                let r = match o {
                    Op::FloatToSigned => llvm::float_to_signed_int(b, fv, it, "cast"),
                    _ => llvm::float_to_unsigned_int(b, fv, it, "cast"),
                };
                llvm::int_tagged(r)
            },
            Op::SignedToFloat | Op::UnsignedToFloat => {
                let (iv, ft) = match (llvm::as_int(v.value), llvm::as_float_type(tl)) {
                    (Some(a), Some(t)) => (a, t),
                    _ => return Err(llvm_fail(line)),
                };
                let r = match o {
                    Op::SignedToFloat => llvm::signed_int_to_float(b, iv, ft, "cast"),
                    _ => llvm::unsigned_int_to_float(b, iv, ft, "cast"),
                };
                llvm::float_tagged(r)
            },
            _ => {
                let (fv, ft) = match (llvm::as_float(v.value), llvm::as_float_type(tl)) {
                    (Some(a), Some(t)) => (a, t),
                    _ => return Err(llvm_fail(line)),
                };
                llvm::float_tagged(llvm::float_cast(b, fv, ft, "cast"))
            },
        };
        match done {
            Some((x, t)) => Ok((TypedValue { value: x, ty: target.duplicate(), op: None }, CastPlan::Emit(t))),
            None => Err(llvm_fail(line)),
        }
    }
}

} // verus!
