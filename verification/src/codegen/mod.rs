//! Decisions of the LLVM code generator that do not depend on LLVM: the resolved
//! type of an annotation, symbol names, error lines, signedness, and the field
//! layout of classes.

pub mod env;
pub mod instr;
mod expr;
pub mod layout;
pub mod llvm;
pub mod runtime;
mod stmt;
pub mod types;
pub mod typing;

use vstd::prelude::*;

use inkwell::builder::Builder;
use inkwell::context::Context;
use inkwell::module::Module;
use inkwell::types::BasicMetadataTypeEnum;
use inkwell::values::{BasicValueEnum, FunctionValue, PointerValue};
use inkwell::basic_block::BasicBlock;

use crate::codegen::env::CgEnv;
use crate::codegen::runtime::Runtime;
use crate::codegen::types::{build_class_layouts, fields_have_types, has_llvm_type, layouts_known, layouts_match, sema_ty_to_llvm, sema_ty_to_metadata, ClassLayout};
use crate::lexer::token::text_eq;
use crate::parser::ast::{
    base_view, expr_view, func_view, lemma_funcs_view, lemma_stmts_view, params_view, program_view, stmt_view, type_view,
    BaseType, BaseTypeV, ClassDecl, Expr, ExprV, FuncDecl, FuncDeclV, Param, ParamV, Program, Stmt, StmtV, TypeAnnotation,
    TypeV,
};
use crate::sema::class_table::{ClassInfoV, ClassTable};
use crate::sema::rules::{analyze_spec, FuncSigV};
use crate::sema::rules;
use crate::sema::types::{is_integer_ty, SemaType, SemaTypeV, Ty, TyV};
use crate::sema::FuncTable;
use crate::text::{decimal, push_str, text, usize_text};

verus! {

#[derive(Debug)]
pub struct CodegenError {
    pub message: String,
    pub line: usize,
}

impl CodegenError {
    /// The report of this error: `Codegen error at line <line>: <message>`.
    pub fn to_string(&self) -> (s: String)
        ensures
            s@ == "Codegen error at line "@ + decimal(self.line as nat) + ": "@ + self.message@,
    {
        let mut s = text("Codegen error at line ");
        push_str(&mut s, usize_text(self.line).as_str());
        push_str(&mut s, ": ");
        push_str(&mut s, self.message.as_str());
        s
    }
}

/// The type that a base type stands for, its class names taken as they are (the
/// program has passed semantic analysis).
pub open spec fn base_ty_spec(b: BaseTypeV) -> TyV
    decreases b,
{
    match b {
        BaseTypeV::I8 => TyV::I8,
        BaseTypeV::I16 => TyV::I16,
        BaseTypeV::I32 => TyV::I32,
        BaseTypeV::I64 => TyV::I64,
        BaseTypeV::U8 => TyV::U8,
        BaseTypeV::U16 => TyV::U16,
        BaseTypeV::U32 => TyV::U32,
        BaseTypeV::U64 => TyV::U64,
        BaseTypeV::F32 => TyV::F32,
        BaseTypeV::F64 => TyV::F64,
        BaseTypeV::Bool => TyV::Bool,
        BaseTypeV::Str => TyV::Str,
        BaseTypeV::Char => TyV::Char,
        BaseTypeV::Void => TyV::Void,
        BaseTypeV::Named(n) => TyV::Class(n),
        BaseTypeV::Array(e) => TyV::Array(Box::new(base_ty_spec(*e))),
    }
}

pub fn base_ty_of(base: &BaseType) -> (t: Ty)
    ensures
        t@ == base_ty_spec(base_view(*base)),
    decreases base,
{
    match base {
        BaseType::I8 => Ty::I8,
        BaseType::I16 => Ty::I16,
        BaseType::I32 => Ty::I32,
        BaseType::I64 => Ty::I64,
        BaseType::U8 => Ty::U8,
        BaseType::U16 => Ty::U16,
        BaseType::U32 => Ty::U32,
        BaseType::U64 => Ty::U64,
        BaseType::F32 => Ty::F32,
        BaseType::F64 => Ty::F64,
        BaseType::Bool => Ty::Bool,
        BaseType::Str => Ty::Str,
        BaseType::Char => Ty::Char,
        BaseType::Void => Ty::Void,
        BaseType::Named(n) => Ty::Class(n.clone()),
        BaseType::Array(elem) => Ty::Array(Box::new(base_ty_of(elem))),
    }
}

/// The type that an annotation stands for, for a program that passed semantic analysis.
pub fn sema_type_of(ann: &TypeAnnotation) -> (t: SemaType)
    ensures
        t@ == (SemaTypeV { ty: base_ty_spec(type_view(*ann).base), nullable: ann.nullable }),
{
    SemaType::new(base_ty_of(&ann.base), ann.nullable)
}

/// The declared return type of a function: `void` when none is written.
pub fn ret_type_of(ret: &Option<TypeAnnotation>) -> (t: SemaType)
    ensures
        match ret {
            Some(a) => t@ == (SemaTypeV { ty: base_ty_spec(type_view(*a).base), nullable: a.nullable }),
            None => t@ == (SemaTypeV { ty: TyV::Void, nullable: false }),
        },
{
    match ret {
        Some(a) => sema_type_of(a),
        None => SemaType::non_null(Ty::Void),
    }
}

/// The symbol of top-level function `name`: `main` keeps its name, as the entry point.
pub open spec fn func_symbol(name: Seq<char>) -> Seq<char> {
    if name == "main"@ { "main"@ } else { "jagx_fn_"@ + name }
}

/// The symbol of method `name` of class `class`.
pub open spec fn method_symbol(class: Seq<char>, name: Seq<char>) -> Seq<char> {
    "jagx_method_"@ + class + "_"@ + name
}

/// The symbols that the runtime support declares.
pub open spec fn runtime_symbols() -> Seq<Seq<char>> {
    seq!["malloc"@, "memcpy"@, "memcmp"@, "printf"@, "jagx_str_concat"@]
}

/// Top-level functions have symbols of their own: two functions of different names
/// never share one, no method's symbol is a function's, and no function takes a
/// symbol of the runtime support.
pub proof fn lemma_function_symbols_distinct(a: Seq<char>, b: Seq<char>, class: Seq<char>, m: Seq<char>)
    ensures
        a != b ==> func_symbol(a) != func_symbol(b),
        func_symbol(a) != method_symbol(class, m),
        !runtime_symbols().contains(func_symbol(a)),
        !runtime_symbols().contains(method_symbol(class, m)),
{
    reveal_strlit("main");
    reveal_strlit("jagx_fn_");
    reveal_strlit("jagx_method_");
    reveal_strlit("_");
    reveal_strlit("malloc");
    reveal_strlit("memcpy");
    reveal_strlit("memcmp");
    reveal_strlit("printf");
    reveal_strlit("jagx_str_concat");
    let fa = func_symbol(a);
    let fb = func_symbol(b);
    let ms = method_symbol(class, m);
    if a != b && fa == fb {
        if a != "main"@ && b != "main"@ {
            assert(a =~= fa.subrange(8, fa.len() as int));
            assert(b =~= fb.subrange(8, fb.len() as int));
        } else if a == "main"@ {
            assert(fa[0] != fb[0]);
        } else {
            assert(fa[0] != fb[0]);
        }
    }
    if a == "main"@ {
        assert(fa[0] != ms[0]);
    } else {
        assert(fa[5] != ms[5]);
    }
    let rs = runtime_symbols();
    assert forall|k: int| 0 <= k < rs.len() implies rs[k] != fa && rs[k] != ms by {
        if a == "main"@ {
            assert(rs[k].len() != fa.len() || rs[k][1] != fa[1]);
        } else {
            assert(rs[k][0] != fa[0] || rs[k][5] != fa[5]);
        }
        assert(rs[k][0] != ms[0] || rs[k][5] != ms[5]);
    }
}

/// The LLVM name of a top-level function: `main` keeps its name.
pub fn mangle_func(name: &str) -> (s: String)
    ensures
        s@ == func_symbol(name@),
{
    if crate::lexer::token::text_eq(name, "main") {
        text("main")
    } else {
        let mut s = text("jagx_fn_");
        push_str(&mut s, name);
        s
    }
}

/// The LLVM name of a method.
pub fn mangle_method(class: &str, name: &str) -> (s: String)
    ensures
        s@ == method_symbol(class@, name@),
{
    let mut s = text("jagx_method_");
    push_str(&mut s, class);
    push_str(&mut s, "_");
    push_str(&mut s, name);
    s
}

/// Whether `e` is an integer or float literal, possibly in parentheses.
pub open spec fn is_literal_spec(e: ExprV) -> bool
    decreases e,
{
    match e {
        ExprV::IntLit(_) => true,
        ExprV::FloatLit(_) => true,
        ExprV::Grouping(inner) => is_literal_spec(*inner),
        _ => false,
    }
}

pub fn is_literal_expr(expr: &Expr) -> (r: bool)
    ensures
        r == is_literal_spec(expr_view(*expr)),
    decreases expr,
{
    match expr {
        Expr::IntLit(_) => true,
        Expr::FloatLit(_) => true,
        Expr::Grouping(inner) => is_literal_expr(inner),
        _ => false,
    }
}

/// The line an error about an expression is reported at (0 where it has none).
pub fn expr_line_pub(expr: &Expr) -> (l: usize)
    ensures
        l == rules::expr_line(expr_view(*expr)),
    decreases expr,
{
    match expr {
        Expr::New { line, .. } => *line,
        Expr::Call { line, .. } => *line,
        Expr::Member { line, .. } => *line,
        Expr::Index { line, .. } => *line,
        Expr::Cast { line, .. } => *line,
        Expr::Unary { line, .. } => *line,
        Expr::Binary { line, .. } => *line,
        Expr::Assign { line, .. } => *line,
        Expr::Grouping(inner) => expr_line_pub(inner),
        _ => 0,
    }
}

/// The line of a statement: its own, or that of its expression.
pub open spec fn stmt_line(s: StmtV) -> int {
    match s {
        StmtV::VarDecl(v) => v.line,
        StmtV::If(i) => i.line,
        StmtV::While(w) => w.line,
        StmtV::For(f) => f.line,
        StmtV::Return { line, .. } => line,
        StmtV::Break { line } => line,
        StmtV::Continue { line } => line,
        StmtV::Expr(e) => rules::expr_line(e),
        StmtV::ClassDecl(c) => c.line,
        StmtV::FuncDecl(f) => f.line,
    }
}

/// Whether item `k` is the first item of `items` that is no declaration.
pub open spec fn first_stray(items: Seq<StmtV>, k: int) -> bool {
    &&& 0 <= k < items.len()
    &&& !(items[k] is ClassDecl) && !(items[k] is FuncDecl)
    &&& forall|j: int| 0 <= j < k ==> (#[trigger] items[j] is ClassDecl || items[j] is FuncDecl)
}

/// The position of the first top-level item that is no declaration.
fn stray_statement(program: &Program) -> (r: Option<usize>)
    ensures
        match r {
            Some(k) => first_stray(program_view(*program), k as int),
            None => only_declarations(program_view(*program)),
        },
{
    proof {
        lemma_stmts_view(program.items@);
    }
    let ghost items = program_view(*program);
    let mut i: usize = 0;
    while i < program.items.len()
        invariant
            i <= program.items.len(),
            items == program_view(*program),
            items.len() == program.items.len(),
            forall|k: int| 0 <= k < items.len() ==> #[trigger] items[k] == stmt_view(program.items@[k]),
            forall|k: int| 0 <= k < i ==> (#[trigger] items[k] is ClassDecl || items[k] is FuncDecl),
        decreases program.items.len() - i,
    {
        assert(items[i as int] == stmt_view(program.items@[i as int]));
        match &program.items[i] {
            Stmt::ClassDecl(_) | Stmt::FuncDecl(_) => {},
            _ => return Some(i),
        }
        i += 1;
    }
    None
}

/// The line of a top-level statement, for the error that refuses it.
pub fn top_level_stmt_line(stmt: &Stmt) -> (l: usize)
    ensures
        l == stmt_line(stmt_view(*stmt)),
        match *stmt {
            Stmt::VarDecl(v) => l == v.line,
            Stmt::If(i) => l == i.line,
            Stmt::While(w) => l == w.line,
            Stmt::For(f) => l == f.line,
            Stmt::Return { line, .. } => l == line,
            Stmt::Break { line } => l == line,
            Stmt::Continue { line } => l == line,
            Stmt::Expr(e) => l == rules::expr_line(expr_view(e)),
            Stmt::ClassDecl(c) => l == c.line,
            Stmt::FuncDecl(f) => l == f.line,
        },
{
    match stmt {
        Stmt::VarDecl(v) => v.line,
        Stmt::If(i) => i.line,
        Stmt::While(w) => w.line,
        Stmt::For(f) => f.line,
        Stmt::Return { line, .. } => *line,
        Stmt::Break { line } => *line,
        Stmt::Continue { line } => *line,
        Stmt::Expr(e) => expr_line_pub(e),
        Stmt::ClassDecl(c) => c.line,
        Stmt::FuncDecl(f) => f.line,
    }
}

/// How a value of a type is held in LLVM.
pub enum LlvmKind {
    I8,
    I16,
    I32,
    I64,
    F32,
    F64,
    /// `i1`.
    Bool,
    /// The `{ data pointer, i64 length }` pair of strings and arrays.
    Slice,
    /// A pointer to an object.
    ObjectPtr,
}

/// Whether values of type `t` exist at run time (not `void`, not a literal's marker type).
pub open spec fn is_value_ty(t: TyV) -> bool {
    !(t is Void) && !(t is NullLit) && !(t is EmptyArrayLit)
}

pub open spec fn llvm_kind_spec(t: TyV) -> LlvmKind {
    match t {
        TyV::I8 | TyV::U8 => LlvmKind::I8,
        TyV::I16 | TyV::U16 => LlvmKind::I16,
        TyV::I32 | TyV::U32 | TyV::Char => LlvmKind::I32,
        TyV::I64 | TyV::U64 => LlvmKind::I64,
        TyV::F32 => LlvmKind::F32,
        TyV::F64 => LlvmKind::F64,
        TyV::Bool => LlvmKind::Bool,
        TyV::Str | TyV::Array(_) => LlvmKind::Slice,
        _ => LlvmKind::ObjectPtr,
    }
}

/// How values of type `ty` are held: integers by width (a `char` as its 32-bit code
/// point), strings and arrays as a pointer with a length, objects as a pointer.
pub fn llvm_kind(ty: &Ty) -> (k: LlvmKind)
    requires
        is_value_ty(ty@),
    ensures
        k == llvm_kind_spec(ty@),
{
    match ty {
        Ty::I8 | Ty::U8 => LlvmKind::I8,
        Ty::I16 | Ty::U16 => LlvmKind::I16,
        Ty::I32 | Ty::U32 | Ty::Char => LlvmKind::I32,
        Ty::I64 | Ty::U64 => LlvmKind::I64,
        Ty::F32 => LlvmKind::F32,
        Ty::F64 => LlvmKind::F64,
        Ty::Bool => LlvmKind::Bool,
        Ty::Str | Ty::Array(_) => LlvmKind::Slice,
        _ => LlvmKind::ObjectPtr,
    }
}

/// The `printf` format that `print` uses for a value of type `ty`, or `None` where
/// `print` does not support the type (classes, arrays).
pub open spec fn print_format_spec(t: TyV) -> Option<Seq<char>> {
    match t {
        TyV::Str => Some("%.*s\n"@),
        TyV::I8 | TyV::I16 | TyV::I32 | TyV::I64 => Some("%lld\n"@),
        TyV::U8 | TyV::U16 | TyV::U32 | TyV::U64 => Some("%llu\n"@),
        TyV::F32 | TyV::F64 => Some("%f\n"@),
        TyV::Bool => Some("%s"@),
        TyV::Char => Some("%c\n"@),
        _ => None,
    }
}

pub fn print_format(ty: &Ty) -> (r: Option<String>)
    ensures
        match r {
            Some(s) => print_format_spec(ty@) == Some(s@),
            None => print_format_spec(ty@) is None,
        },
{
    match ty {
        Ty::Str => Some(text("%.*s\n")),
        Ty::I8 | Ty::I16 | Ty::I32 | Ty::I64 => Some(text("%lld\n")),
        Ty::U8 | Ty::U16 | Ty::U32 | Ty::U64 => Some(text("%llu\n")),
        Ty::F32 | Ty::F64 => Some(text("%f\n")),
        Ty::Bool => Some(text("%s")),
        Ty::Char => Some(text("%c\n")),
        _ => None,
    }
}


// ---------------------------------------------------------------------------
// The generator
// ---------------------------------------------------------------------------

/// The value of an expression, with the type that it has: LLVM values carry no
/// sign and no nullability, which casts and the choice of instructions need.
pub struct TypedValue<'ctx> {
    pub value: BasicValueEnum<'ctx>,
    pub ty: SemaType,
    /// The instruction that computed the value, where one instruction of those
    /// named by `Op` did; `None` for constants, loads, calls and joined values.
    pub op: Option<crate::codegen::llvm::Op>,
}

/// The state of the body being generated: the local variables, the loops around
/// the current point (their `continue` and `break` targets) and, in a method, its
/// class.
pub struct FnCtx<'ctx> {
    pub env: CgEnv<PointerValue<'ctx>>,
    pub loops: Vec<(BasicBlock<'ctx>, BasicBlock<'ctx>)>,
    pub current_class: Option<String>,
}

impl<'ctx> FnCtx<'ctx> {
    pub fn new(current_class: Option<String>) -> (fx: FnCtx<'ctx>)
        ensures
            fx.env@ == seq![Seq::<(Seq<char>, PointerValue<'ctx>, SemaTypeV)>::empty()],
            fx.loops@.len() == 0,
            fx.current_class == current_class,
    {
        FnCtx { env: CgEnv::new(), loops: Vec::new(), current_class }
    }
}

/// An LLVM module being filled from a program that passed semantic analysis.
pub struct Codegen<'ctx> {
    pub(crate) context: &'ctx Context,
    pub(crate) module: Module<'ctx>,
    pub(crate) builder: Builder<'ctx>,
    pub(crate) classes: &'ctx ClassTable,
    pub(crate) funcs: &'ctx FuncTable,
    pub(crate) layouts: Vec<ClassLayout<'ctx>>,
    pub(crate) functions: Vec<(String, FunctionValue<'ctx>)>,
    pub(crate) methods: Vec<(String, String, FunctionValue<'ctx>)>,
    pub(crate) rt: Runtime<'ctx>,
}

/// Whether every item of the program is a class or a function declaration.
pub open spec fn only_declarations(items: Seq<StmtV>) -> bool {
    forall|i: int| 0 <= i < items.len() ==> (#[trigger] items[i] is ClassDecl || items[i] is FuncDecl)
}

/// Whether `e` is the error for an instruction that LLVM did not make, at `line`.
pub open spec fn is_llvm_fail(e: CodegenError, line: usize) -> bool {
    e.message@ == "LLVM이 명령을 만들지 못했습니다"@ && e.line == line
}

/// Whether `e` is the error for an instruction that LLVM did not make, at any line.
pub open spec fn is_llvm_error(e: CodegenError) -> bool {
    e.message@ == "LLVM이 명령을 만들지 못했습니다"@
}

pub(crate) fn llvm_fail(line: usize) -> (e: CodegenError)
    ensures
        e.line == line,
        is_llvm_fail(e, line),
{
    CodegenError { message: text("LLVM이 명령을 만들지 못했습니다"), line }
}

/// Whether the type of each parameter has an LLVM type.
pub open spec fn params_have_types(names: Seq<Seq<char>>, ps: Seq<ParamV>) -> bool {
    forall|i: int| 0 <= i < ps.len() ==> has_llvm_type(names, base_ty_spec((#[trigger] ps[i]).ty.base))
}

/// Whether a function of this signature has an LLVM type: every parameter's type has
/// one, and the return type has one or is `void`.
pub open spec fn signature_has_types(names: Seq<Seq<char>>, f: FuncDeclV) -> bool {
    &&& params_have_types(names, f.params)
    &&& match f.ret_ty {
        None => true,
        Some(t) => base_ty_spec(t.base) is Void || has_llvm_type(names, base_ty_spec(t.base)),
    }
}

/// Whether every top-level function and every method of `items` has an LLVM type.
pub open spec fn signatures_have_types(names: Seq<Seq<char>>, items: Seq<StmtV>) -> bool {
    forall|i: int|
        0 <= i < items.len() ==> match #[trigger] items[i] {
            StmtV::FuncDecl(f) => signature_has_types(names, f),
            StmtV::ClassDecl(c) => forall|j: int| 0 <= j < c.methods.len() ==> signature_has_types(names, #[trigger] c.methods[j]),
            _ => true,
        }
}

/// Compiles `program` into a new module named `module_name`. The program must have
/// passed semantic analysis, which gave `classes` and `funcs`. Only class and
/// function declarations may stand at the top level: any other statement there is
/// refused at its line, as the entry point of an executable is `fn main() -> i32`.
/// A class with a field of a type without values (`void`) cannot be laid out, and a
/// function or method with such a parameter has no LLVM type: both are refused too.
pub fn compile<'ctx>(
    context: &'ctx Context,
    module_name: &str,
    program: &Program,
    classes: &'ctx ClassTable,
    funcs: &'ctx FuncTable,
) -> (r: Result<Codegen<'ctx>, CodegenError>)
    requires
        analyze_spec(program_view(*program)) == Ok::<(Seq<ClassInfoV>, Seq<FuncSigV>), crate::sema::SemaErrorV>((classes@, funcs@)),
    ensures
        r is Ok ==> only_declarations(program_view(*program)),
        forall|i: int|
            0 <= i < program_view(*program).len() && !(#[trigger] program_view(*program)[i] is ClassDecl)
                && !(program_view(*program)[i] is FuncDecl) ==> r is Err,
        !fields_have_types(classes@) ==> r is Err,
        !signatures_have_types(classes.name_seq(), program_view(*program)) ==> r is Err,
        forall|k: int|
            first_stray(program_view(*program), k) ==> (r matches Err(e) && e.line == stmt_line(program_view(*program)[k])
                && e.message@ == "최상위 실행문은 아직 코드 생성이 지원되지 않습니다 (class/fn 선언만 허용, main을 진입점으로 사용하세요)"@),
{
    proof {
        crate::codegen::types::lemma_analyzed_classes_have_layouts(program_view(*program));
    }
    if let Some(k) = stray_statement(program) {
        proof {
            lemma_stmts_view(program.items@);
            assert forall|j: int| first_stray(program_view(*program), j) implies j == k by {
                if j < k {
                    assert(program_view(*program)[j] is ClassDecl || program_view(*program)[j] is FuncDecl);
                } else if j > k {
                    assert(program_view(*program)[k as int] is ClassDecl || program_view(*program)[k as int] is FuncDecl);
                }
            }
        }
        return Err(
            CodegenError {
                message: text(
                    "최상위 실행문은 아직 코드 생성이 지원되지 않습니다 (class/fn 선언만 허용, main을 진입점으로 사용하세요)",
                ),
                line: top_level_stmt_line(&program.items[k]),
            },
        );
    }
    let module = llvm::create_module(context, module_name);
    let builder = llvm::create_builder(context);
    let layouts = build_class_layouts(context, classes)?;
    let rt = match Runtime::declare(context, &module) {
        Some(rt) => rt,
        None => return Err(llvm_fail(0)),
    };
    let mut cg = Codegen {
        context,
        module,
        builder,
        classes,
        funcs,
        layouts,
        functions: Vec::new(),
        methods: Vec::new(),
        rt,
    };
    cg.declare_all(program)?;
    cg.define_all(program)?;
    Ok(cg)
}

impl<'ctx> Codegen<'ctx> {
    /// The layouts line up with the class table.
    pub(crate) open spec fn wf(&self) -> bool {
        layouts_match(self.layouts@, self.classes@)
    }

    /// The module that the generator fills.
    pub closed spec fn llvm_module(&self) -> Module<'ctx> {
        self.module
    }

    /// LLVM's check of the module: `None` when it is well formed, else LLVM's report.
    pub fn verify(&self) -> Option<String> {
        llvm::verify_module(&self.module)
    }

    /// The module's textual IR.
    pub fn ir_text(&self) -> String {
        llvm::module_text(&self.module)
    }

    /// The module, for writing it out.
    pub fn module(&self) -> (m: &Module<'ctx>)
        ensures
            *m == self.llvm_module(),
    {
        &self.module
    }

    /// The LLVM types of the parameters, after a leading byte pointer for `self`.
    fn param_types(&self, params: &Vec<Param>, has_self: bool, line: usize) -> (r: Result<Vec<BasicMetadataTypeEnum<'ctx>>, CodegenError>)
        ensures
            r is Ok <==> params_have_types(self.classes.name_seq(), params_view(params@)),
    {
        let mut tys: Vec<BasicMetadataTypeEnum<'ctx>> = Vec::new();
        if has_self {
            tys.push(llvm::ty_meta(llvm::ptr_ty_basic(llvm::byte_ptr_type(self.context))));
        }
        let ghost ps = params_view(params@);
        let mut i: usize = 0;
        while i < params.len()
            invariant
                i <= params.len(),
                ps == params_view(params@),
                forall|k: int| 0 <= k < i ==> has_llvm_type(self.classes.name_seq(), base_ty_spec((#[trigger] ps[k]).ty.base)),
            decreases params.len() - i,
        {
            assert(ps[i as int] == crate::parser::ast::param_view(params@[i as int]));
            let ty = sema_type_of(&params[i].ty);
            match sema_ty_to_metadata(self.context, self.classes, &ty) {
                Some(t) => tys.push(t),
                None => return Err(CodegenError { message: text("값을 가질 수 없는 타입의 매개변수입니다"), line }),
            }
            i += 1;
        }
        Ok(tys)
    }

    /// The LLVM type of a function with these parameter types returning `ret`.
    fn function_type(&self, params: &Vec<BasicMetadataTypeEnum<'ctx>>, ret: &SemaType, line: usize) -> (r: Result<
        inkwell::types::FunctionType<'ctx>,
        CodegenError,
    >)
        ensures
            r is Ok <==> (ret@.ty is Void || has_llvm_type(self.classes.name_seq(), ret@.ty)),
    {
        if let Ty::Void = ret.ty {
            return Ok(llvm::void_fn_type(self.context, params, false));
        }
        match sema_ty_to_llvm(self.context, self.classes, ret) {
            Some(t) => Ok(llvm::fn_type(t, params, false)),
            None => Err(CodegenError { message: text("값을 가질 수 없는 반환 타입입니다"), line }),
        }
    }

    /// First pass: declares every function and method, so that bodies can call any of
    /// them.
    fn declare_all(&mut self, program: &Program) -> (r: Result<(), CodegenError>)
        ensures
            final(self).classes == old(self).classes,
            final(self).funcs == old(self).funcs,
            final(self).layouts@ == old(self).layouts@,
            r is Ok <==> signatures_have_types(old(self).classes.name_seq(), program_view(*program)),
    {
        proof {
            lemma_stmts_view(program.items@);
        }
        let ghost items = program_view(*program);
        let ghost names = self.classes.name_seq();
        let mut i: usize = 0;
        while i < program.items.len()
            invariant
                self.classes == old(self).classes,
                self.funcs == old(self).funcs,
                self.layouts@ == old(self).layouts@,
                names == self.classes.name_seq(),
                i <= program.items.len(),
                items == program_view(*program),
                items.len() == program.items.len(),
                forall|k: int| 0 <= k < items.len() ==> #[trigger] items[k] == stmt_view(program.items@[k]),
                forall|k: int|
                    0 <= k < i ==> match #[trigger] items[k] {
                        StmtV::FuncDecl(f) => signature_has_types(names, f),
                        StmtV::ClassDecl(c) => forall|j: int|
                            0 <= j < c.methods.len() ==> signature_has_types(names, #[trigger] c.methods[j]),
                        _ => true,
                    },
            decreases program.items.len() - i,
        {
            assert(items[i as int] == stmt_view(program.items@[i as int]));
            match &program.items[i] {
                Stmt::FuncDecl(f) => {
                    let params = self.param_types(&f.params, false, f.line)?;
                    let ret = ret_type_of(&f.ret_ty);
                    let fn_ty = self.function_type(&params, &ret, f.line)?;
                    let name = mangle_func(f.name.as_str());
                    let fv = llvm::add_function(&self.module, name.as_str(), fn_ty);
                    self.functions.push((f.name.clone(), fv));
                },
                Stmt::ClassDecl(c) => {
                    proof {
                        lemma_funcs_view(c.methods@);
                    }
                    let ghost ms = crate::parser::ast::funcs_view(c.methods@);
                    assert(items[i as int] == StmtV::ClassDecl(crate::parser::ast::class_view(*c)));
                    assert(crate::parser::ast::class_view(*c).methods == ms);
                    let mut j: usize = 0;
                    while j < c.methods.len()
                        invariant
                            self.classes == old(self).classes,
                            self.funcs == old(self).funcs,
                            self.layouts@ == old(self).layouts@,
                            names == self.classes.name_seq(),
                            j <= c.methods.len(),
                            ms == crate::parser::ast::funcs_view(c.methods@),
                            ms.len() == c.methods.len(),
                            forall|k: int| 0 <= k < ms.len() ==> #[trigger] ms[k] == func_view(c.methods@[k]),
                            forall|k: int| 0 <= k < j ==> signature_has_types(names, #[trigger] ms[k]),
                            i < items.len(),
                            items == program_view(*program),
                            items[i as int] == StmtV::ClassDecl(crate::parser::ast::class_view(*c)),
                            crate::parser::ast::class_view(*c).methods == ms,
                        decreases c.methods.len() - j,
                    {
                        assert(ms[j as int] == func_view(c.methods@[j as int]));
                        let m = &c.methods[j];
                        let params = self.param_types(&m.params, m.has_self, m.line)?;
                        let ret = ret_type_of(&m.ret_ty);
                        let fn_ty = self.function_type(&params, &ret, m.line)?;
                        let name = mangle_method(c.name.as_str(), m.name.as_str());
                        let fv = llvm::add_function(&self.module, name.as_str(), fn_ty);
                        self.methods.push((c.name.clone(), m.name.clone(), fv));
                        j += 1;
                    }
                },
                _ => {},
            }
            i += 1;
        }
        Ok(())
    }

    /// Second pass: generates the bodies, in the order of the program; a top-level
    /// statement other than a declaration is refused at its line.
    fn define_all(&self, program: &Program) -> (r: Result<(), CodegenError>)
        requires
            self.wf(),
        ensures
            r is Ok ==> only_declarations(program_view(*program)),
            forall|i: int|
                0 <= i < program_view(*program).len() && !(#[trigger] program_view(*program)[i] is ClassDecl)
                    && !(program_view(*program)[i] is FuncDecl) ==> r is Err,
    {
        proof {
            lemma_stmts_view(program.items@);
        }
        let ghost items = program_view(*program);
        let mut i: usize = 0;
        while i < program.items.len()
            invariant
                i <= program.items.len(),
                self.wf(),
                items == program_view(*program),
                items.len() == program.items.len(),
                forall|k: int| 0 <= k < items.len() ==> #[trigger] items[k] == stmt_view(program.items@[k]),
                forall|k: int| 0 <= k < i ==> (#[trigger] items[k] is ClassDecl || items[k] is FuncDecl),
            decreases program.items.len() - i,
        {
            match &program.items[i] {
                Stmt::FuncDecl(f) => {
                    self.define_func(f)?;
                },
                Stmt::ClassDecl(c) => {
                    let mut j: usize = 0;
                    while j < c.methods.len()
                        invariant
                            self.wf(),
                        decreases c.methods.len() - j,
                    {
                        self.define_method(c, &c.methods[j])?;
                        j += 1;
                    }
                },
                other => {
                    proof {
                        assert(!(items[i as int] is ClassDecl) && !(items[i as int] is FuncDecl));
                        assert forall|k: int|
                            0 <= k < items.len() && !(#[trigger] items[k] is ClassDecl) && !(items[k] is FuncDecl) implies k
                            >= i by {}
                    }
                    return Err(
                        CodegenError {
                            message: text(
                                "최상위 실행문은 아직 코드 생성이 지원되지 않습니다 (class/fn 선언만 허용, main을 진입점으로 사용하세요)",
                            ),
                            line: top_level_stmt_line(other),
                        },
                    );
                },
            }
            i += 1;
        }
        Ok(())
    }

    /// The declared function named `name`.
    pub(crate) fn function_named(&self, name: &str, line: usize) -> (r: Result<FunctionValue<'ctx>, CodegenError>)
        ensures
            match r {
                Ok(f) => exists|i: int|
                    0 <= i < self.functions@.len() && (#[trigger] self.functions@[i]).0@ == name@ && self.functions@[i].1 == f,
                Err(e) => e.line == line && forall|i: int|
                    0 <= i < self.functions@.len() ==> (#[trigger] self.functions@[i]).0@ != name@,
            },
    {
        let mut i: usize = 0;
        while i < self.functions.len()
            invariant
                i <= self.functions.len(),
                forall|k: int| 0 <= k < i ==> (#[trigger] self.functions@[k]).0@ != name@,
            decreases self.functions.len() - i,
        {
            if text_eq(self.functions[i].0.as_str(), name) {
                return Ok(self.functions[i].1);
            }
            i += 1;
        }
        let mut m = text("정의되지 않은 함수입니다: '");
        push_str(&mut m, name);
        push_str(&mut m, "'");
        Err(CodegenError { message: m, line })
    }

    /// The declared method `name` of class `class`.
    pub(crate) fn method_named(&self, class: &str, name: &str, line: usize) -> (r: Result<FunctionValue<'ctx>, CodegenError>)
        ensures
            match r {
                Ok(f) => exists|i: int|
                    0 <= i < self.methods@.len() && (#[trigger] self.methods@[i]).0@ == class@ && self.methods@[i].1@ == name@
                        && self.methods@[i].2 == f,
                Err(e) => e.line == line && forall|i: int|
                    0 <= i < self.methods@.len() ==> !((#[trigger] self.methods@[i]).0@ == class@ && self.methods@[i].1@ == name@),
            },
    {
        let mut i: usize = 0;
        while i < self.methods.len()
            invariant
                i <= self.methods.len(),
                forall|k: int| 0 <= k < i ==> !((#[trigger] self.methods@[k]).0@ == class@ && self.methods@[k].1@ == name@),
            decreases self.methods.len() - i,
        {
            if text_eq(self.methods[i].0.as_str(), class) && text_eq(self.methods[i].1.as_str(), name) {
                return Ok(self.methods[i].2);
            }
            i += 1;
        }
        let mut m = text("클래스 '");
        push_str(&mut m, class);
        push_str(&mut m, "'에 정의되지 않은 메서드입니다: '");
        push_str(&mut m, name);
        push_str(&mut m, "'");
        Err(CodegenError { message: m, line })
    }

    fn define_func(&self, f: &FuncDecl) -> (r: Result<(), CodegenError>)
        requires
            self.wf(),
        ensures
            (forall|i: int| 0 <= i < self.functions@.len() ==> (#[trigger] self.functions@[i]).0@ != f.name@) ==> r is Err,
            !params_have_types(self.classes.name_seq(), params_view(f.params@)) ==> r is Err,
    {
        let function = self.function_named(f.name.as_str(), f.line)?;
        let ret = ret_type_of(&f.ret_ty);
        let mut fx = FnCtx::new(None);
        self.build_function_body(function, &f.params, false, None, &f.body, &ret, &mut fx, f.line)
    }

    fn define_method(&self, class: &ClassDecl, m: &FuncDecl) -> (r: Result<(), CodegenError>)
        requires
            self.wf(),
        ensures
            (forall|i: int|
                0 <= i < self.methods@.len() ==> !((#[trigger] self.methods@[i]).0@ == class.name@ && self.methods@[i].1@
                    == m.name@)) ==> r is Err,
            !params_have_types(self.classes.name_seq(), params_view(m.params@)) ==> r is Err,
    {
        let function = self.method_named(class.name.as_str(), m.name.as_str(), m.line)?;
        let ret = ret_type_of(&m.ret_ty);
        let mut fx = FnCtx::new(Some(class.name.clone()));
        self.build_function_body(function, &m.params, m.has_self, Some(&class.name), &m.body, &ret, &mut fx, m.line)
    }

    /// Fills a declared function: the parameters (after `self`) are copied to stack
    /// slots bound in the outermost scope, then the body follows. A body that ends
    /// without a terminator gets `ret void`, or `unreachable` in a function returning
    /// a value (analysis has made sure that every path returns there).
    fn build_function_body(
        &self,
        function: FunctionValue<'ctx>,
        params: &Vec<Param>,
        has_self: bool,
        self_class: Option<&String>,
        body: &Vec<Stmt>,
        ret_ty: &SemaType,
        fx: &mut FnCtx<'ctx>,
        line: usize,
    ) -> (r: Result<(), CodegenError>)
        requires
            self.wf(),
            old(fx).env@.len() == 1,
            old(fx).loops@.len() == 0,
        ensures
            has_self && self_class is None ==> r is Err,
            !params_have_types(self.classes.name_seq(), params_view(params@)) ==> r is Err,
    {
        let entry = llvm::append_block(self.context, function, "entry");
        llvm::position_at_end(&self.builder, entry);
        let mut idx: u32 = 0;
        if has_self {
            let cls = match self_class {
                Some(c) => c,
                None => return Err(CodegenError { message: text("'self'의 클래스를 알 수 없습니다"), line }),
            };
            let pv = match llvm::nth_param(function, idx) {
                Some(v) => v,
                None => return Err(llvm_fail(line)),
            };
            let slot = match llvm::alloca(&self.builder, llvm::ptr_ty_basic(llvm::byte_ptr_type(self.context)), "self") {
                Some(p) => p,
                None => return Err(llvm_fail(line)),
            };
            if !llvm::store(&self.builder, slot, pv) {
                return Err(llvm_fail(line));
            }
            fx.env.define(text("self"), slot, SemaType::non_null(Ty::Class(cls.clone())));
            idx = 1;
        }
        let ghost ps = params_view(params@);
        let mut i: usize = 0;
        while i < params.len()
            invariant
                i <= params.len(),
                fx.env@.len() == 1,
                fx.loops@.len() == 0,
                ps == params_view(params@),
                forall|k: int| 0 <= k < i ==> has_llvm_type(self.classes.name_seq(), base_ty_spec((#[trigger] ps[k]).ty.base)),
            decreases params.len() - i,
        {
            assert(ps[i as int] == crate::parser::ast::param_view(params@[i as int]));
            let ty = sema_type_of(&params[i].ty);
            let lt = match sema_ty_to_llvm(self.context, self.classes, &ty) {
                Some(t) => t,
                None => return Err(CodegenError { message: text("값을 가질 수 없는 타입의 매개변수입니다"), line }),
            };
            let pv = match llvm::nth_param(function, idx) {
                Some(v) => v,
                None => return Err(llvm_fail(line)),
            };
            let slot = match llvm::alloca(&self.builder, lt, params[i].name.as_str()) {
                Some(p) => p,
                None => return Err(llvm_fail(line)),
            };
            if !llvm::store(&self.builder, slot, pv) {
                return Err(llvm_fail(line));
            }
            fx.env.define(params[i].name.clone(), slot, ty);
            idx = match idx.checked_add(1) {
                Some(n) => n,
                None => return Err(llvm_fail(line)),
            };
            i += 1;
        }
        assert(params_have_types(self.classes.name_seq(), ps));
        self.gen_block(body, fx, ret_ty)?;
        if self.block_open() {
            let ok = if let Ty::Void = ret_ty.ty {
                llvm::ret_void(&self.builder)
            } else {
                llvm::unreachable_inst(&self.builder)
            };
            if !ok {
                return Err(llvm_fail(line));
            }
        }
        Ok(())
    }

    /// Whether the current block can still take instructions: it exists and does not
    /// end with a terminator yet.
    pub(crate) fn block_open(&self) -> bool {
        match llvm::insert_block(&self.builder) {
            Some(bb) => !llvm::block_terminated(bb),
            None => false,
        }
    }

    /// The function that holds the current block.
    pub(crate) fn current_function(&self, line: usize) -> (r: Result<FunctionValue<'ctx>, CodegenError>)
        ensures
            r matches Err(e) ==> is_llvm_error(e),
    {
        match llvm::insert_block(&self.builder) {
            Some(bb) => match llvm::block_function(bb) {
                Some(f) => Ok(f),
                None => Err(llvm_fail(line)),
            },
            None => Err(llvm_fail(line)),
        }
    }
}

} // verus!
