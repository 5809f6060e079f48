//! The choice of instructions: which LLVM instruction an operator or a conversion
//! becomes, as a function of the operand types alone.

use vstd::prelude::*;

use crate::codegen::llvm::{FloatCmp, IntCmp, Op};
use crate::codegen::types::{is_signed, is_signed_ty};
use crate::codegen::typing::cg_unify;
use crate::codegen::{llvm_kind_spec, print_format_spec, LlvmKind};
use crate::lexer::token::KindView;
use crate::lexer::{initial_model, lex_operator_spec};
use crate::parser::ast::{AssignOp, BinaryOp, ExprV};
use crate::parser::grammar::{assign_op, binary_op};
use crate::sema::types::{is_float_ty, is_integer_ty, SemaTypeV, Ty, TyV};

verus! {

/// The instruction that computes the value of a binary expression `le op re` whose
/// operands have types `lt` and `rt`, or `None` where no one instruction does (`==`
/// and `!=` of two strings, `+` of two strings): `and`/`or` on both values; a null
/// test for `==`/`!=` against `null`; else the arithmetic or comparison instruction
/// on the operands' common type.
pub open spec fn binary_instr(op: BinaryOp, le: ExprV, lt: SemaTypeV, re: ExprV, rt: SemaTypeV) -> Option<Op> {
    let u = cg_unify(le, lt, re, rt)->Some_0;
    if op is And {
        Some(Op::And)
    } else if op is Or {
        Some(Op::Or)
    } else if op is Eq || op is NotEq {
        if lt.ty is NullLit || rt.ty is NullLit {
            Some(if op is Eq { Op::IsNull } else { Op::IsNotNull })
        } else if lt.ty is Str && rt.ty is Str {
            None
        } else {
            compare_op_spec(op, u.ty)
        }
    } else if op is Add && lt.ty is Str && rt.ty is Str {
        None
    } else if op is Add || op is Sub || op is Mul || op is Div || op is Mod {
        arith_op_spec(op, u.ty)
    } else {
        compare_op_spec(op, u.ty)
    }
}

/// The instruction for arithmetic operator `op` on two values of type `t`: the float
/// instructions for floats; for integers, division and remainder by the sign of `t`.
pub open spec fn arith_op_spec(op: BinaryOp, t: TyV) -> Option<Op> {
    if is_float_ty(t) {
        match op {
            BinaryOp::Add => Some(Op::FloatAdd),
            BinaryOp::Sub => Some(Op::FloatSub),
            BinaryOp::Mul => Some(Op::FloatMul),
            BinaryOp::Div => Some(Op::FloatDiv),
            BinaryOp::Mod => Some(Op::FloatRem),
            _ => None,
        }
    } else if is_integer_ty(t) {
        match op {
            BinaryOp::Add => Some(Op::IntAdd),
            BinaryOp::Sub => Some(Op::IntSub),
            BinaryOp::Mul => Some(Op::IntMul),
            BinaryOp::Div => Some(if is_signed_ty(t) { Op::IntSDiv } else { Op::IntUDiv }),
            BinaryOp::Mod => Some(if is_signed_ty(t) { Op::IntSRem } else { Op::IntURem }),
            _ => None,
        }
    } else {
        None
    }
}

pub fn arith_op(op: BinaryOp, t: &Ty) -> (r: Option<Op>)
    ensures
        r == arith_op_spec(op, t@),
{
    if t.is_float() {
        match op {
            BinaryOp::Add => Some(Op::FloatAdd),
            BinaryOp::Sub => Some(Op::FloatSub),
            BinaryOp::Mul => Some(Op::FloatMul),
            BinaryOp::Div => Some(Op::FloatDiv),
            BinaryOp::Mod => Some(Op::FloatRem),
            _ => None,
        }
    } else if t.is_integer() {
        let signed = is_signed(t);
        match op {
            BinaryOp::Add => Some(Op::IntAdd),
            BinaryOp::Sub => Some(Op::IntSub),
            BinaryOp::Mul => Some(Op::IntMul),
            BinaryOp::Div => Some(if signed { Op::IntSDiv } else { Op::IntUDiv }),
            BinaryOp::Mod => Some(if signed { Op::IntSRem } else { Op::IntURem }),
            _ => None,
        }
    } else {
        None
    }
}

/// The comparison for operator `op` on two values of type `t`: ordered float
/// predicates for floats; otherwise integer predicates, orderings by the sign of `t`.
pub open spec fn compare_op_spec(op: BinaryOp, t: TyV) -> Option<Op> {
    if is_float_ty(t) {
        match op {
            BinaryOp::Lt => Some(Op::FloatCompare(FloatCmp::Olt)),
            BinaryOp::LtEq => Some(Op::FloatCompare(FloatCmp::Ole)),
            BinaryOp::Gt => Some(Op::FloatCompare(FloatCmp::Ogt)),
            BinaryOp::GtEq => Some(Op::FloatCompare(FloatCmp::Oge)),
            BinaryOp::Eq => Some(Op::FloatCompare(FloatCmp::Oeq)),
            BinaryOp::NotEq => Some(Op::FloatCompare(FloatCmp::One)),
            _ => None,
        }
    } else {
        let s = is_signed_ty(t);
        match op {
            BinaryOp::Lt => Some(Op::IntCompare(if s { IntCmp::Slt } else { IntCmp::Ult })),
            BinaryOp::LtEq => Some(Op::IntCompare(if s { IntCmp::Sle } else { IntCmp::Ule })),
            BinaryOp::Gt => Some(Op::IntCompare(if s { IntCmp::Sgt } else { IntCmp::Ugt })),
            BinaryOp::GtEq => Some(Op::IntCompare(if s { IntCmp::Sge } else { IntCmp::Uge })),
            BinaryOp::Eq => Some(Op::IntCompare(IntCmp::Eq)),
            BinaryOp::NotEq => Some(Op::IntCompare(IntCmp::Ne)),
            _ => None,
        }
    }
}

pub fn compare_op(op: BinaryOp, t: &Ty) -> (r: Option<Op>)
    ensures
        r == compare_op_spec(op, t@),
{
    if t.is_float() {
        match op {
            BinaryOp::Lt => Some(Op::FloatCompare(FloatCmp::Olt)),
            BinaryOp::LtEq => Some(Op::FloatCompare(FloatCmp::Ole)),
            BinaryOp::Gt => Some(Op::FloatCompare(FloatCmp::Ogt)),
            BinaryOp::GtEq => Some(Op::FloatCompare(FloatCmp::Oge)),
            BinaryOp::Eq => Some(Op::FloatCompare(FloatCmp::Oeq)),
            BinaryOp::NotEq => Some(Op::FloatCompare(FloatCmp::One)),
            _ => None,
        }
    } else {
        let s = is_signed(t);
        match op {
            BinaryOp::Lt => Some(Op::IntCompare(if s { IntCmp::Slt } else { IntCmp::Ult })),
            BinaryOp::LtEq => Some(Op::IntCompare(if s { IntCmp::Sle } else { IntCmp::Ule })),
            BinaryOp::Gt => Some(Op::IntCompare(if s { IntCmp::Sgt } else { IntCmp::Ugt })),
            BinaryOp::GtEq => Some(Op::IntCompare(if s { IntCmp::Sge } else { IntCmp::Uge })),
            BinaryOp::Eq => Some(Op::IntCompare(IntCmp::Eq)),
            BinaryOp::NotEq => Some(Op::IntCompare(IntCmp::Ne)),
            _ => None,
        }
    }
}

/// Whether values of type `t` are LLVM integers: the integer types, `char` and `bool`.
pub open spec fn is_int_like(t: TyV) -> bool {
    is_integer_ty(t) || t is Char || t is Bool
}

/// The width in bits of the LLVM type of `t` (integers and floats).
pub open spec fn bits(t: TyV) -> int {
    match t {
        TyV::I8 | TyV::U8 => 8,
        TyV::I16 | TyV::U16 => 16,
        TyV::I32 | TyV::U32 | TyV::Char | TyV::F32 => 32,
        TyV::I64 | TyV::U64 | TyV::F64 => 64,
        TyV::Bool => 1,
        _ => 0,
    }
}

/// What a numeric conversion does.
pub enum CastPlan {
    /// The value is kept as it is (the same LLVM type).
    Keep,
    /// The value goes through this instruction.
    Emit(Op),
    /// No numeric conversion leads from the one type to the other.
    Unsupported,
}

/// The conversion of a value of type `from` to type `to`: a wider integer by sign or
/// zero extension after the sign of `from`, a narrower one by truncation; between
/// integers and floats by the sign of the integer side; between floats of different
/// widths by a float cast.
pub open spec fn cast_plan_spec(from: TyV, to: TyV) -> CastPlan {
    if is_int_like(from) && is_int_like(to) {
        if bits(to) > bits(from) {
            CastPlan::Emit(if is_signed_ty(from) { Op::SignExtend } else { Op::ZeroExtend })
        } else if bits(to) < bits(from) {
            CastPlan::Emit(Op::Truncate)
        } else {
            CastPlan::Keep
        }
    } else if is_int_like(to) && is_float_ty(from) {
        CastPlan::Emit(if is_signed_ty(to) { Op::FloatToSigned } else { Op::FloatToUnsigned })
    } else if is_float_ty(to) && is_int_like(from) {
        CastPlan::Emit(if is_signed_ty(from) { Op::SignedToFloat } else { Op::UnsignedToFloat })
    } else if is_float_ty(to) && is_float_ty(from) {
        if bits(to) != bits(from) {
            CastPlan::Emit(Op::FloatCast)
        } else {
            CastPlan::Keep
        }
    } else {
        CastPlan::Unsupported
    }
}

fn int_like(t: &Ty) -> (r: bool)
    ensures
        r == is_int_like(t@),
{
    match t {
        Ty::Char | Ty::Bool => true,
        _ => t.is_integer(),
    }
}

fn bit_width(t: &Ty) -> (r: u32)
    ensures
        r == bits(t@),
{
    match t {
        Ty::I8 | Ty::U8 => 8,
        Ty::I16 | Ty::U16 => 16,
        Ty::I32 | Ty::U32 | Ty::Char | Ty::F32 => 32,
        Ty::I64 | Ty::U64 | Ty::F64 => 64,
        Ty::Bool => 1,
        _ => 0,
    }
}

pub fn cast_plan(from: &Ty, to: &Ty) -> (r: CastPlan)
    ensures
        r == cast_plan_spec(from@, to@),
{
    let fi = int_like(from);
    let ti = int_like(to);
    let ff = from.is_float();
    let tf = to.is_float();
    let fb = bit_width(from);
    let tb = bit_width(to);
    if fi && ti {
        if tb > fb {
            CastPlan::Emit(if is_signed(from) { Op::SignExtend } else { Op::ZeroExtend })
        } else if tb < fb {
            CastPlan::Emit(Op::Truncate)
        } else {
            CastPlan::Keep
        }
    } else if ti && ff {
        CastPlan::Emit(if is_signed(to) { Op::FloatToSigned } else { Op::FloatToUnsigned })
    } else if tf && fi {
        CastPlan::Emit(if is_signed(from) { Op::SignedToFloat } else { Op::UnsignedToFloat })
    } else if tf && ff {
        if tb != fb {
            CastPlan::Emit(Op::FloatCast)
        } else {
            CastPlan::Keep
        }
    } else {
        CastPlan::Unsupported
    }
}

/// How `print` hands a value of a type to `printf`, after the format.
pub enum PrintArg {
    /// A string: its length (as a 32-bit precision) and its data pointer.
    Text,
    /// An integer widened to 64 bits by this instruction.
    Widened(Op),
    /// A `f64` as it is.
    Double,
    /// A `f32` extended to `f64` by this instruction.
    Extended(Op),
    /// A `bool`: the text `true` or `false` chosen by the value.
    BoolText,
    /// A `char`: its code point.
    CodePoint,
}

/// The argument that `print` hands over for a value of type `t`: signed integers
/// sign-extended and unsigned ones zero-extended to 64 bits, `f32` extended to `f64`;
/// `None` for types that `print` does not support.
pub open spec fn print_arg_spec(t: TyV) -> Option<PrintArg> {
    match t {
        TyV::Str => Some(PrintArg::Text),
        TyV::I8 | TyV::I16 | TyV::I32 | TyV::I64 => Some(PrintArg::Widened(Op::SignExtend)),
        TyV::U8 | TyV::U16 | TyV::U32 | TyV::U64 => Some(PrintArg::Widened(Op::ZeroExtend)),
        TyV::F64 => Some(PrintArg::Double),
        TyV::F32 => Some(PrintArg::Extended(Op::FloatExtend)),
        TyV::Bool => Some(PrintArg::BoolText),
        TyV::Char => Some(PrintArg::CodePoint),
        _ => None,
    }
}

/// What `print` handed to LLVM: the argument form, the text of the format string,
/// and for a `bool` the texts of the two strings it chooses between.
pub struct PrintUse {
    pub arg: PrintArg,
    pub format: String,
    pub bool_texts: Option<(String, String)>,
}


// ---------------------------------------------------------------------------
// What the chosen instructions compute
// ---------------------------------------------------------------------------

/// What an integer instruction computes from operands `a` and `b`, before wrapping
/// to the width: `add` their sum, `sub` their difference, `mul` their product.
pub open spec fn int_instr_value(o: Op, a: int, b: int) -> Option<int> {
    match o {
        Op::IntAdd => Some(a + b),
        Op::IntSub => Some(a - b),
        Op::IntMul => Some(a * b),
        _ => None,
    }
}

/// Whether LLVM's integer comparison `p` holds of `a` and `b`, both read as numbers
/// of the operands' type (signed or unsigned as the predicate says).
pub open spec fn int_cmp_holds(p: IntCmp, a: int, b: int) -> bool {
    match p {
        IntCmp::Eq => a == b,
        IntCmp::Ne => a != b,
        IntCmp::Slt | IntCmp::Ult => a < b,
        IntCmp::Sle | IntCmp::Ule => a <= b,
        IntCmp::Sgt | IntCmp::Ugt => a > b,
        IntCmp::Sge | IntCmp::Uge => a >= b,
    }
}

/// The float instruction that does, on floats, what integer instruction `o` does.
pub open spec fn float_counterpart(o: Op) -> Option<Op> {
    match o {
        Op::IntAdd => Some(Op::FloatAdd),
        Op::IntSub => Some(Op::FloatSub),
        Op::IntMul => Some(Op::FloatMul),
        Op::IntSDiv => Some(Op::FloatDiv),
        Op::IntSRem => Some(Op::FloatRem),
        Op::IntCompare(IntCmp::Eq) => Some(Op::FloatCompare(FloatCmp::Oeq)),
        Op::IntCompare(IntCmp::Ne) => Some(Op::FloatCompare(FloatCmp::One)),
        Op::IntCompare(IntCmp::Slt) => Some(Op::FloatCompare(FloatCmp::Olt)),
        Op::IntCompare(IntCmp::Sle) => Some(Op::FloatCompare(FloatCmp::Ole)),
        Op::IntCompare(IntCmp::Sgt) => Some(Op::FloatCompare(FloatCmp::Ogt)),
        Op::IntCompare(IntCmp::Sge) => Some(Op::FloatCompare(FloatCmp::Oge)),
        _ => None,
    }
}

/// The operator that the source characters `cs` spell, lexed as one operator token
/// and read by the parser at precedence level `level`.
pub open spec fn source_operator(cs: Seq<char>, level: int) -> Option<BinaryOp> {
    match lex_operator_spec(cs, initial_model()) {
        Ok((_, k)) => binary_op(level, KindView::Plain(k)),
        Err(_) => None,
    }
}

/// `+`, `-` and `*` written in the source compute, on integers of any type, the sum,
/// the difference and the product of their operands.
pub proof fn lemma_source_arithmetic(t: TyV, a: int, b: int)
    requires
        is_integer_ty(t),
    ensures
        source_operator(seq!['+'], 4) matches Some(op) && arith_op_spec(op, t) matches Some(o)
            && int_instr_value(o, a, b) == Some(a + b),
        source_operator(seq!['-'], 4) matches Some(op) && arith_op_spec(op, t) matches Some(o)
            && int_instr_value(o, a, b) == Some(a - b),
        source_operator(seq!['*'], 5) matches Some(op) && arith_op_spec(op, t) matches Some(o)
            && int_instr_value(o, a, b) == Some(a * b),
{
}

/// The comparisons written in the source hold, on integers of any type, exactly when
/// the relation that they spell holds of the operands.
pub proof fn lemma_source_comparisons(t: TyV, a: int, b: int)
    requires
        is_integer_ty(t),
    ensures
        source_operator(seq!['<'], 3) matches Some(op) && compare_op_spec(op, t) matches Some(Op::IntCompare(p))
            && (int_cmp_holds(p, a, b) <==> a < b),
        source_operator(seq!['<', '='], 3) matches Some(op) && compare_op_spec(op, t) matches Some(Op::IntCompare(p))
            && (int_cmp_holds(p, a, b) <==> a <= b),
        source_operator(seq!['>'], 3) matches Some(op) && compare_op_spec(op, t) matches Some(Op::IntCompare(p))
            && (int_cmp_holds(p, a, b) <==> a > b),
        source_operator(seq!['>', '='], 3) matches Some(op) && compare_op_spec(op, t) matches Some(Op::IntCompare(p))
            && (int_cmp_holds(p, a, b) <==> a >= b),
        source_operator(seq!['=', '='], 2) matches Some(op) && compare_op_spec(op, t) matches Some(Op::IntCompare(p))
            && (int_cmp_holds(p, a, b) <==> a == b),
        source_operator(seq!['!', '='], 2) matches Some(op) && compare_op_spec(op, t) matches Some(Op::IntCompare(p))
            && (int_cmp_holds(p, a, b) <==> a != b),
{
}

/// On floats each operator does what it does on integers: its float instruction is the
/// float counterpart of its instruction on a signed integer type.
pub proof fn lemma_float_instructions_follow_integer_ones(op: BinaryOp, f: TyV, i: TyV)
    requires
        is_float_ty(f),
        i is I8 || i is I16 || i is I32 || i is I64,
    ensures
        arith_op_spec(op, i) matches Some(o) ==> arith_op_spec(op, f) == float_counterpart(o),
        compare_op_spec(op, i) matches Some(o) ==> compare_op_spec(op, f) == float_counterpart(o),
{
}

/// Distinct arithmetic operators become distinct instructions on one operand type.
pub proof fn lemma_arith_instructions_distinct(op1: BinaryOp, op2: BinaryOp, t: TyV)
    requires
        arith_op_spec(op1, t) is Some,
        arith_op_spec(op1, t) == arith_op_spec(op2, t),
    ensures
        op1 == op2,
{
}

/// Distinct comparison operators become distinct instructions on one operand type.
pub proof fn lemma_compare_instructions_distinct(op1: BinaryOp, op2: BinaryOp, t: TyV)
    requires
        compare_op_spec(op1, t) is Some,
        compare_op_spec(op1, t) == compare_op_spec(op2, t),
    ensures
        op1 == op2,
{
}

/// The arithmetic operator that a compound assignment applies to the stored value and
/// the assigned one.
pub open spec fn compound_op(op: AssignOp) -> BinaryOp {
    match op {
        AssignOp::AddAssign => BinaryOp::Add,
        AssignOp::SubAssign => BinaryOp::Sub,
        AssignOp::MulAssign => BinaryOp::Mul,
        _ => BinaryOp::Div,
    }
}

/// The assignment operator that the source characters `cs` spell, lexed as one token.
pub open spec fn source_assign_operator(cs: Seq<char>) -> Option<AssignOp> {
    match lex_operator_spec(cs, initial_model()) {
        Ok((_, k)) => assign_op(KindView::Plain(k)),
        Err(_) => None,
    }
}

/// `+=`, `-=` and `*=` written in the source store, on integers of any type, the sum,
/// the difference and the product of the stored value `a` and the assigned value `b`;
/// `=` stores the assigned value with no arithmetic.
pub proof fn lemma_source_compound_assignments(t: TyV, a: int, b: int)
    requires
        is_integer_ty(t),
    ensures
        source_assign_operator(seq!['+', '=']) matches Some(op) && op != AssignOp::Assign && (arith_op_spec(
            compound_op(op),
            t,
        ) matches Some(o) && int_instr_value(o, a, b) == Some(a + b)),
        source_assign_operator(seq!['-', '=']) matches Some(op) && op != AssignOp::Assign && (arith_op_spec(
            compound_op(op),
            t,
        ) matches Some(o) && int_instr_value(o, a, b) == Some(a - b)),
        source_assign_operator(seq!['*', '=']) matches Some(op) && op != AssignOp::Assign && (arith_op_spec(
            compound_op(op),
            t,
        ) matches Some(o) && int_instr_value(o, a, b) == Some(a * b)),
        source_assign_operator(seq!['=']) == Some(AssignOp::Assign),
{
}

/// Division, remainder and the orderings follow the sign of the operand type: a
/// signed type gets the signed instruction and an unsigned type the unsigned one.
pub proof fn lemma_instructions_follow_sign(t: TyV)
    requires
        is_integer_ty(t),
    ensures
        arith_op_spec(BinaryOp::Div, t) == Some(if is_signed_ty(t) { Op::IntSDiv } else { Op::IntUDiv }),
        arith_op_spec(BinaryOp::Mod, t) == Some(if is_signed_ty(t) { Op::IntSRem } else { Op::IntURem }),
        compare_op_spec(BinaryOp::Lt, t) == Some(Op::IntCompare(if is_signed_ty(t) { IntCmp::Slt } else { IntCmp::Ult })),
        compare_op_spec(BinaryOp::GtEq, t) == Some(Op::IntCompare(if is_signed_ty(t) { IntCmp::Sge } else { IntCmp::Uge })),
        is_signed_ty(t) <==> (t is I8 || t is I16 || t is I32 || t is I64),
{
}

/// The width in bits of the values of an LLVM kind of integer or float type.
pub open spec fn kind_bits(k: LlvmKind) -> int {
    match k {
        LlvmKind::Bool => 1,
        LlvmKind::I8 => 8,
        LlvmKind::I16 => 16,
        LlvmKind::I32 | LlvmKind::F32 => 32,
        LlvmKind::I64 | LlvmKind::F64 => 64,
        _ => 0,
    }
}

/// A number, a `bool` or a character is held in an LLVM type as wide as the type
/// itself (the width that conversions go by), a float in a float type and any other
/// number in an integer type.
pub proof fn lemma_llvm_kind_width(t: TyV)
    requires
        is_int_like(t) || is_float_ty(t),
    ensures
        kind_bits(llvm_kind_spec(t)) == bits(t),
        is_float_ty(t) <==> (llvm_kind_spec(t) is F32 || llvm_kind_spec(t) is F64),
{
}

/// `print` hands an integer over as the 64-bit value that it stands for and prints it
/// by its sign: a signed one widened by sign extension under a signed (`d`)
/// conversion, an unsigned one by zero extension under an unsigned (`u`) one; a float
/// is handed over as a `double` under `f`; each format ends the line.
pub proof fn lemma_print_follows_sign(t: TyV)
    ensures
        is_integer_ty(t) ==> (print_format_spec(t) matches Some(f) && f.len() == 5 && f[3] == (if is_signed_ty(t) {
            'd'
        } else {
            'u'
        }) && f[4] == '\n' && print_arg_spec(t) == Some(
            PrintArg::Widened(if is_signed_ty(t) { Op::SignExtend } else { Op::ZeroExtend }),
        )),
        is_float_ty(t) ==> (print_format_spec(t) matches Some(f) && f.len() == 3 && f[1] == 'f' && f[2] == '\n'
            && (print_arg_spec(t) == Some(PrintArg::Double) || print_arg_spec(t) == Some(PrintArg::Extended(Op::FloatExtend)))),
{
    reveal_strlit("%lld\n");
    reveal_strlit("%llu\n");
    reveal_strlit("%f\n");
}

/// Distinct operator tokens parse to distinct operators, at any precedence levels.
pub proof fn lemma_binary_op_injective(l1: int, k1: KindView, l2: int, k2: KindView)
    requires
        binary_op(l1, k1) is Some,
        binary_op(l1, k1) == binary_op(l2, k2),
    ensures
        k1 == k2,
{
}

} // verus!
