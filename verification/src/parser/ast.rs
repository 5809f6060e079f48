//! Syntax tree of JavaGX programs, and its mathematical view (names as character
//! sequences, lists as sequences).

use vstd::prelude::*;

verus! {

/// A whole compilation unit.
#[derive(Debug, PartialEq)]
pub struct Program {
    pub items: Vec<Stmt>,
}

#[derive(Debug, PartialEq)]
pub enum Stmt {
    ClassDecl(ClassDecl),
    FuncDecl(FuncDecl),
    VarDecl(VarDecl),
    If(IfStmt),
    While(WhileStmt),
    For(ForStmt),
    Return { value: Option<Expr>, line: usize },
    Break { line: usize },
    Continue { line: usize },
    Expr(Expr),
}

#[derive(Debug, PartialEq)]
pub struct ClassDecl {
    pub name: String,
    pub superclass: Option<String>,
    pub fields: Vec<FieldDecl>,
    pub methods: Vec<FuncDecl>,
    pub line: usize,
}

#[derive(Debug, PartialEq)]
pub struct FieldDecl {
    pub name: String,
    pub ty: TypeAnnotation,
    pub is_pub: bool,
    pub line: usize,
}

#[derive(Debug, PartialEq)]
pub struct FuncDecl {
    pub name: String,
    pub has_self: bool,
    pub is_pub: bool,
    pub params: Vec<Param>,
    pub ret_ty: Option<TypeAnnotation>,
    pub body: Vec<Stmt>,
    pub line: usize,
}

#[derive(Debug, PartialEq)]
pub struct Param {
    pub name: String,
    pub ty: TypeAnnotation,
}

#[derive(Debug, PartialEq)]
pub struct VarDecl {
    pub kind: VarKind,
    pub name: String,
    pub ty: Option<TypeAnnotation>,
    pub value: Expr,
    pub line: usize,
}

#[derive(Debug, Clone, Copy, PartialEq, Eq)]
pub enum VarKind {
    Let,
    Var,
    Const,
}

#[derive(Debug, PartialEq)]
pub struct IfStmt {
    /// (condition, body) pairs: the first is the `if`, the rest are `elif` clauses.
    pub branches: Vec<(Expr, Vec<Stmt>)>,
    pub else_body: Option<Vec<Stmt>>,
    pub line: usize,
}

#[derive(Debug, PartialEq)]
pub struct WhileStmt {
    pub cond: Expr,
    pub body: Vec<Stmt>,
    pub line: usize,
}

#[derive(Debug, PartialEq)]
pub struct ForStmt {
    pub var_name: String,
    pub iter: Expr,
    pub body: Vec<Stmt>,
    pub line: usize,
}

/// A type annotation: base type and whether it is nullable (`?` suffix).
#[derive(Debug, PartialEq)]
pub struct TypeAnnotation {
    pub base: BaseType,
    pub nullable: bool,
}

#[derive(Debug, PartialEq)]
pub enum BaseType {
    I8,
    I16,
    I32,
    I64,
    U8,
    U16,
    U32,
    U64,
    F32,
    F64,
    Bool,
    Str,
    Char,
    Void,
    /// A class type.
    Named(String),
    /// An array type `T[]`; its elements are never nullable.
    Array(Box<BaseType>),
}

/// An expression. A float literal is kept as its decimal source text.
#[derive(Debug, PartialEq)]
pub enum Expr {
    IntLit(i64),
    FloatLit(String),
    StringLit(String),
    CharLit(char),
    BoolLit(bool),
    Null,
    SelfExpr,
    Ident(String),
    New { class_name: String, args: Vec<Expr>, line: usize },
    /// An array literal `[e1, e2, ...]`; an empty one needs a declared type.
    ArrayLit { elements: Vec<Expr>, line: usize },
    Call { callee: Box<Expr>, args: Vec<Expr>, line: usize },
    Member { object: Box<Expr>, name: String, line: usize },
    Index { object: Box<Expr>, index: Box<Expr>, line: usize },
    Cast { expr: Box<Expr>, ty: TypeAnnotation, line: usize },
    Unary { op: UnaryOp, expr: Box<Expr>, line: usize },
    Binary { op: BinaryOp, lhs: Box<Expr>, rhs: Box<Expr>, line: usize },
    Assign { op: AssignOp, target: Box<Expr>, value: Box<Expr>, line: usize },
    Grouping(Box<Expr>),
}

#[derive(Debug, Clone, Copy, PartialEq, Eq)]
pub enum UnaryOp {
    Neg,
    Not,
}

#[derive(Debug, Clone, Copy, PartialEq, Eq)]
pub enum BinaryOp {
    Add,
    Sub,
    Mul,
    Div,
    Mod,
    Eq,
    NotEq,
    Lt,
    LtEq,
    Gt,
    GtEq,
    And,
    Or,
}

#[derive(Debug, Clone, Copy, PartialEq, Eq)]
pub enum AssignOp {
    Assign,
    AddAssign,
    SubAssign,
    MulAssign,
    DivAssign,
}

// ---------------------------------------------------------------------------
// Views
// ---------------------------------------------------------------------------

pub enum BaseTypeV {
    I8,
    I16,
    I32,
    I64,
    U8,
    U16,
    U32,
    U64,
    F32,
    F64,
    Bool,
    Str,
    Char,
    Void,
    Named(Seq<char>),
    Array(Box<BaseTypeV>),
}

pub struct TypeV {
    pub base: BaseTypeV,
    pub nullable: bool,
}

pub enum ExprV {
    IntLit(i64),
    FloatLit(Seq<char>),
    StringLit(Seq<char>),
    CharLit(char),
    BoolLit(bool),
    Null,
    SelfExpr,
    Ident(Seq<char>),
    New { class_name: Seq<char>, args: Seq<ExprV>, line: int },
    ArrayLit { elements: Seq<ExprV>, line: int },
    Call { callee: Box<ExprV>, args: Seq<ExprV>, line: int },
    Member { object: Box<ExprV>, name: Seq<char>, line: int },
    Index { object: Box<ExprV>, index: Box<ExprV>, line: int },
    Cast { expr: Box<ExprV>, ty: TypeV, line: int },
    Unary { op: UnaryOp, expr: Box<ExprV>, line: int },
    Binary { op: BinaryOp, lhs: Box<ExprV>, rhs: Box<ExprV>, line: int },
    Assign { op: AssignOp, target: Box<ExprV>, value: Box<ExprV>, line: int },
    Grouping(Box<ExprV>),
}

pub struct ParamV {
    pub name: Seq<char>,
    pub ty: TypeV,
}

pub struct FieldDeclV {
    pub name: Seq<char>,
    pub ty: TypeV,
    pub is_pub: bool,
    pub line: int,
}

pub struct FuncDeclV {
    pub name: Seq<char>,
    pub has_self: bool,
    pub is_pub: bool,
    pub params: Seq<ParamV>,
    pub ret_ty: Option<TypeV>,
    pub body: Seq<StmtV>,
    pub line: int,
}

pub struct ClassDeclV {
    pub name: Seq<char>,
    pub superclass: Option<Seq<char>>,
    pub fields: Seq<FieldDeclV>,
    pub methods: Seq<FuncDeclV>,
    pub line: int,
}

pub struct VarDeclV {
    pub kind: VarKind,
    pub name: Seq<char>,
    pub ty: Option<TypeV>,
    pub value: ExprV,
    pub line: int,
}

pub struct IfStmtV {
    pub branches: Seq<(ExprV, Seq<StmtV>)>,
    pub else_body: Option<Seq<StmtV>>,
    pub line: int,
}

pub struct WhileStmtV {
    pub cond: ExprV,
    pub body: Seq<StmtV>,
    pub line: int,
}

pub struct ForStmtV {
    pub var_name: Seq<char>,
    pub iter: ExprV,
    pub body: Seq<StmtV>,
    pub line: int,
}

pub enum StmtV {
    ClassDecl(ClassDeclV),
    FuncDecl(FuncDeclV),
    VarDecl(VarDeclV),
    If(IfStmtV),
    While(WhileStmtV),
    For(ForStmtV),
    Return { value: Option<ExprV>, line: int },
    Break { line: int },
    Continue { line: int },
    Expr(ExprV),
}

pub open spec fn base_view(b: BaseType) -> BaseTypeV
    decreases b,
{
    match b {
        BaseType::I8 => BaseTypeV::I8,
        BaseType::I16 => BaseTypeV::I16,
        BaseType::I32 => BaseTypeV::I32,
        BaseType::I64 => BaseTypeV::I64,
        BaseType::U8 => BaseTypeV::U8,
        BaseType::U16 => BaseTypeV::U16,
        BaseType::U32 => BaseTypeV::U32,
        BaseType::U64 => BaseTypeV::U64,
        BaseType::F32 => BaseTypeV::F32,
        BaseType::F64 => BaseTypeV::F64,
        BaseType::Bool => BaseTypeV::Bool,
        BaseType::Str => BaseTypeV::Str,
        BaseType::Char => BaseTypeV::Char,
        BaseType::Void => BaseTypeV::Void,
        BaseType::Named(n) => BaseTypeV::Named(n@),
        BaseType::Array(e) => BaseTypeV::Array(Box::new(base_view(*e))),
    }
}

pub open spec fn type_view(t: TypeAnnotation) -> TypeV {
    TypeV { base: base_view(t.base), nullable: t.nullable }
}

pub open spec fn opt_type_view(t: Option<TypeAnnotation>) -> Option<TypeV> {
    match t {
        Some(a) => Some(type_view(a)),
        None => None,
    }
}

pub open spec fn expr_view(e: Expr) -> ExprV
    decreases e,
{
    match e {
        Expr::IntLit(v) => ExprV::IntLit(v),
        Expr::FloatLit(s) => ExprV::FloatLit(s@),
        Expr::StringLit(s) => ExprV::StringLit(s@),
        Expr::CharLit(c) => ExprV::CharLit(c),
        Expr::BoolLit(b) => ExprV::BoolLit(b),
        Expr::Null => ExprV::Null,
        Expr::SelfExpr => ExprV::SelfExpr,
        Expr::Ident(s) => ExprV::Ident(s@),
        Expr::New { class_name, args, line } => ExprV::New { class_name: class_name@, args: exprs_view(args@), line: line as int },
        Expr::ArrayLit { elements, line } => ExprV::ArrayLit { elements: exprs_view(elements@), line: line as int },
        Expr::Call { callee, args, line } => ExprV::Call { callee: Box::new(expr_view(*callee)), args: exprs_view(args@), line: line as int },
        Expr::Member { object, name, line } => ExprV::Member { object: Box::new(expr_view(*object)), name: name@, line: line as int },
        Expr::Index { object, index, line } => ExprV::Index { object: Box::new(expr_view(*object)), index: Box::new(expr_view(*index)), line: line as int },
        Expr::Cast { expr, ty, line } => ExprV::Cast { expr: Box::new(expr_view(*expr)), ty: type_view(ty), line: line as int },
        Expr::Unary { op, expr, line } => ExprV::Unary { op, expr: Box::new(expr_view(*expr)), line: line as int },
        Expr::Binary { op, lhs, rhs, line } => ExprV::Binary { op, lhs: Box::new(expr_view(*lhs)), rhs: Box::new(expr_view(*rhs)), line: line as int },
        Expr::Assign { op, target, value, line } => ExprV::Assign { op, target: Box::new(expr_view(*target)), value: Box::new(expr_view(*value)), line: line as int },
        Expr::Grouping(inner) => ExprV::Grouping(Box::new(expr_view(*inner))),
    }
}

pub open spec fn exprs_view(s: Seq<Expr>) -> Seq<ExprV>
    decreases s,
{
    if s.len() == 0 {
        Seq::empty()
    } else {
        exprs_view(s.drop_last()).push(expr_view(s.last()))
    }
}


pub open spec fn opt_expr_view(e: Option<Expr>) -> Option<ExprV> {
    match e {
        Some(x) => Some(expr_view(x)),
        None => None,
    }
}

pub open spec fn param_view(p: Param) -> ParamV {
    ParamV { name: p.name@, ty: type_view(p.ty) }
}

pub open spec fn params_view(s: Seq<Param>) -> Seq<ParamV> {
    s.map_values(|p: Param| param_view(p))
}

pub open spec fn field_view(f: FieldDecl) -> FieldDeclV {
    FieldDeclV { name: f.name@, ty: type_view(f.ty), is_pub: f.is_pub, line: f.line as int }
}

pub open spec fn fields_view(s: Seq<FieldDecl>) -> Seq<FieldDeclV> {
    s.map_values(|f: FieldDecl| field_view(f))
}

pub open spec fn opt_name_view(n: Option<String>) -> Option<Seq<char>> {
    match n {
        Some(s) => Some(s@),
        None => None,
    }
}

pub open spec fn stmt_view(s: Stmt) -> StmtV
    decreases s,
{
    match s {
        Stmt::ClassDecl(c) => StmtV::ClassDecl(class_view(c)),
        Stmt::FuncDecl(f) => StmtV::FuncDecl(func_view(f)),
        Stmt::VarDecl(v) => StmtV::VarDecl(VarDeclV {
            kind: v.kind,
            name: v.name@,
            ty: opt_type_view(v.ty),
            value: expr_view(v.value),
            line: v.line as int,
        }),
        Stmt::If(i) => StmtV::If(IfStmtV {
            branches: branches_view(i.branches@),
            else_body: match i.else_body {
                Some(b) => Some(stmts_view(b@)),
                None => None,
            },
            line: i.line as int,
        }),
        Stmt::While(w) => StmtV::While(WhileStmtV { cond: expr_view(w.cond), body: stmts_view(w.body@), line: w.line as int }),
        Stmt::For(f) => StmtV::For(ForStmtV {
            var_name: f.var_name@,
            iter: expr_view(f.iter),
            body: stmts_view(f.body@),
            line: f.line as int,
        }),
        Stmt::Return { value, line } => StmtV::Return { value: opt_expr_view(value), line: line as int },
        Stmt::Break { line } => StmtV::Break { line: line as int },
        Stmt::Continue { line } => StmtV::Continue { line: line as int },
        Stmt::Expr(e) => StmtV::Expr(expr_view(e)),
    }
}

pub open spec fn class_view(c: ClassDecl) -> ClassDeclV
    decreases c,
{
    ClassDeclV {
        name: c.name@,
        superclass: opt_name_view(c.superclass),
        fields: fields_view(c.fields@),
        methods: funcs_view(c.methods@),
        line: c.line as int,
    }
}

pub open spec fn func_view(f: FuncDecl) -> FuncDeclV
    decreases f,
{
    FuncDeclV {
        name: f.name@,
        has_self: f.has_self,
        is_pub: f.is_pub,
        params: params_view(f.params@),
        ret_ty: opt_type_view(f.ret_ty),
        body: stmts_view(f.body@),
        line: f.line as int,
    }
}

pub open spec fn stmts_view(s: Seq<Stmt>) -> Seq<StmtV>
    decreases s,
{
    if s.len() == 0 {
        Seq::empty()
    } else {
        stmts_view(s.drop_last()).push(stmt_view(s.last()))
    }
}

pub open spec fn funcs_view(s: Seq<FuncDecl>) -> Seq<FuncDeclV>
    decreases s,
{
    if s.len() == 0 {
        Seq::empty()
    } else {
        funcs_view(s.drop_last()).push(func_view(s.last()))
    }
}

pub open spec fn branches_view(s: Seq<(Expr, Vec<Stmt>)>) -> Seq<(ExprV, Seq<StmtV>)>
    decreases s,
{
    if s.len() == 0 {
        Seq::empty()
    } else {
        branches_view(s.drop_last()).push((expr_view(s.last().0), stmts_view(s.last().1@)))
    }
}

pub open spec fn program_view(p: Program) -> Seq<StmtV> {
    stmts_view(p.items@)
}

pub proof fn lemma_stmts_view(s: Seq<Stmt>)
    ensures
        stmts_view(s).len() == s.len(),
        forall|i: int| 0 <= i < s.len() ==> #[trigger] stmts_view(s)[i] == stmt_view(s[i]),
    decreases s.len(),
{
    if s.len() > 0 {
        lemma_stmts_view(s.drop_last());
    }
}

pub proof fn lemma_exprs_view(s: Seq<Expr>)
    ensures
        exprs_view(s).len() == s.len(),
        forall|i: int| 0 <= i < s.len() ==> #[trigger] exprs_view(s)[i] == expr_view(s[i]),
    decreases s.len(),
{
    if s.len() > 0 {
        lemma_exprs_view(s.drop_last());
    }
}

pub proof fn lemma_funcs_view(s: Seq<FuncDecl>)
    ensures
        funcs_view(s).len() == s.len(),
        forall|i: int| 0 <= i < s.len() ==> #[trigger] funcs_view(s)[i] == func_view(s[i]),
    decreases s.len(),
{
    if s.len() > 0 {
        lemma_funcs_view(s.drop_last());
    }
}

pub proof fn lemma_branches_view(s: Seq<(Expr, Vec<Stmt>)>)
    ensures
        branches_view(s).len() == s.len(),
        forall|i: int|
            0 <= i < s.len() ==> #[trigger] branches_view(s)[i] == (expr_view(s[i].0), stmts_view(s[i].1@)),
    decreases s.len(),
{
    if s.len() > 0 {
        lemma_branches_view(s.drop_last());
    }
}

impl Expr {
    /// Whether this expression can be the target of an assignment.
    pub fn is_lvalue(&self) -> (r: bool)
        ensures
            r == is_lvalue_spec(expr_view(*self)),
    {
        match self {
            Expr::Ident(_) => true,
            Expr::Member { .. } => true,
            Expr::Index { .. } => true,
            _ => false,
        }
    }
}

/// Variables, fields and array elements are assignable.
pub open spec fn is_lvalue_spec(e: ExprV) -> bool {
    e is Ident || e is Member || e is Index
}

} // verus!
