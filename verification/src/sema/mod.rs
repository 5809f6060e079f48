//! Semantic analysis: symbol tables, scopes and static type checking.
//!
//! The pipeline builds the class table, then the function table, then checks
//! every body; it stops at the first error.

pub mod class_table;
pub mod env;
pub mod rules;
pub mod types;

use vstd::prelude::*;

use crate::lexer::token::text_eq;
use crate::parser::ast::{
    ExprV, expr_view, exprs_view, func_view, lemma_branches_view, lemma_exprs_view, lemma_stmts_view, param_view,
    program_view, stmt_view, stmts_view, AssignOp, BinaryOp, ClassDecl, Expr, ForStmt, FuncDecl, Program, Stmt, UnaryOp,
    VarDecl, VarKind, WhileStmt,
};
use crate::sema::class_table::{
    build_class_table, names_view, params_ok, resolve_params, resolve_ret, ret_ok, ret_type, types_view,
    ClassTable,
};
use crate::sema::env::{env_fresh, Env, ScopeV, VarBinding};
use crate::sema::rules::{
    analyze_spec, class_names, func_sig_spec, func_table_from, func_table_spec, lookup_func, func_index_from,
    Ctx, FuncSigV,
};
use crate::sema::types::{resolve_type, sema_type_text, SemaType, SemaTypeV, Ty, TyV};
use crate::text::{decimal, push_str, text, usize_text};

use crate::parser::targets::program_targets_ok;

verus! {

#[derive(Debug)]
pub struct SemaError {
    pub message: String,
    pub line: usize,
}

impl SemaError {
    /// The report of this error: `Semantic error at line <line>: <message>`.
    pub fn to_string(&self) -> (s: String)
        ensures
            s@ == "Semantic error at line "@ + decimal(self.line as nat) + ": "@ + self.message@,
    {
        let mut s = text("Semantic error at line ");
        push_str(&mut s, usize_text(self.line).as_str());
        push_str(&mut s, ": ");
        push_str(&mut s, self.message.as_str());
        s
    }
}

/// A broken rule as the rules state it: its line and its message.
pub struct SemaErrorV {
    pub line: int,
    pub message: Seq<char>,
}

/// The error of a broken rule at `line` with the message `message`.
pub open spec fn fail(line: int, message: Seq<char>) -> SemaErrorV {
    SemaErrorV { line, message }
}

impl SemaError {
    /// Whether this error is `s`: the same line and the same message.
    pub open spec fn agrees(&self, s: SemaErrorV) -> bool {
        self.line == s.line && self.message@ == s.message
    }
}

fn err(message: String, line: usize) -> (e: SemaError)
    ensures
        e.line == line,
        e.message@ == message@,
{
    SemaError { message, line }
}

/// `a`, then `b`, as one message.
fn msg2(a: &str, b: &str) -> (s: String)
    ensures
        s@ == a@ + b@,
{
    let mut s = text(a);
    push_str(&mut s, b);
    s
}

/// `a`, `b`, `c`, `d`, `e` as one message.
fn msg5(a: &str, b: &str, c: &str, d: &str, e: &str) -> (s: String)
    ensures
        s@ == a@ + b@ + c@ + d@ + e@,
{
    let mut s = text(a);
    push_str(&mut s, b);
    push_str(&mut s, c);
    push_str(&mut s, d);
    push_str(&mut s, e);
    s
}

// ---------------------------------------------------------------------------
// The function table
// ---------------------------------------------------------------------------

/// The signature of a top-level function.
pub struct FuncSig {
    pub name: String,
    pub param_names: Vec<String>,
    pub param_types: Vec<SemaType>,
    pub ret: SemaType,
    pub line: usize,
}

impl View for FuncSig {
    type V = FuncSigV;

    open spec fn view(&self) -> FuncSigV {
        FuncSigV {
            name: self.name@,
            param_names: names_view(self.param_names@),
            param_types: types_view(self.param_types@),
            ret: self.ret@,
            line: self.line as int,
        }
    }
}

/// The top-level functions of a program, each at most once by name.
pub struct FuncTable {
    funcs: Vec<FuncSig>,
}

impl View for FuncTable {
    type V = Seq<FuncSigV>;

    closed spec fn view(&self) -> Seq<FuncSigV> {
        self.funcs@.map_values(|f: FuncSig| f@)
    }
}

/// The names of the signatures, in order.
pub open spec fn func_names(fs: Seq<FuncSigV>) -> Seq<Seq<char>> {
    fs.map_values(|x: FuncSigV| x.name)
}

impl FuncTable {
    /// No two functions of the table share a name.
    #[verifier::type_invariant]
    spec fn names_unique(self) -> bool {
        crate::sema::class_table::names_distinct(func_names(self@))
    }

    pub fn len(&self) -> (n: usize)
        ensures
            n == self@.len(),
    {
        self.funcs.len()
    }

    /// The signature at position `i`, in declaration order.
    pub fn at(&self, i: usize) -> (f: &FuncSig)
        requires
            i < self@.len(),
        ensures
            f@ == self@[i as int],
    {
        &self.funcs[i]
    }

    fn index_of(&self, name: &str) -> (r: Option<usize>)
        ensures
            match r {
                Some(i) => func_index_from(self@, name@, 0) == Some(i as nat) && i < self@.len(),
                None => func_index_from(self@, name@, 0) is None,
            },
    {
        let mut i: usize = 0;
        while i < self.funcs.len()
            invariant
                i <= self.funcs.len(),
                self@.len() == self.funcs.len(),
                func_index_from(self@, name@, 0) == func_index_from(self@, name@, i as nat),
            decreases self.funcs.len() - i,
        {
            if text_eq(self.funcs[i].name.as_str(), name) {
                return Some(i);
            }
            i += 1;
        }
        None
    }

    pub fn get(&self, name: &str) -> (r: Option<&FuncSig>)
        ensures
            match r {
                Some(f) => lookup_func(self@, name@) == Some(f@),
                None => lookup_func(self@, name@) is None,
            },
    {
        match self.index_of(name) {
            Some(i) => Some(&self.funcs[i]),
            None => None,
        }
    }

    pub fn contains_key(&self, name: &str) -> (r: bool)
        ensures
            r == lookup_func(self@, name@) is Some,
    {
        self.index_of(name).is_some()
    }
}

/// Whether a signature in `funcs` is named `name`.
fn has_func(funcs: &Vec<FuncSig>, name: &str) -> (r: bool)
    ensures
        r == funcs@.map_values(|f: FuncSig| f@).map_values(|x: FuncSigV| x.name).contains(name@),
{
    let ghost names = funcs@.map_values(|f: FuncSig| f@).map_values(|x: FuncSigV| x.name);
    let mut k: usize = 0;
    while k < funcs.len()
        invariant
            k <= funcs.len(),
            names == funcs@.map_values(|f: FuncSig| f@).map_values(|x: FuncSigV| x.name),
            forall|m: int| 0 <= m < k ==> #[trigger] funcs@[m].name@ != name@,
        decreases funcs.len() - k,
    {
        if text_eq(funcs[k].name.as_str(), name) {
            assert(names[k as int] == name@);
            return true;
        }
        k += 1;
    }
    assert(!names.contains(name@)) by {
        if names.contains(name@) {
            let m = choose|m: int| 0 <= m < names.len() && names[m] == name@;
            assert(funcs@[m].name@ == name@);
        }
    }
    false
}

/// Builds the table of top-level functions; a function declared twice, or naming
/// an unknown type, is an error at its line.
pub fn build_func_table(program: &Program, classes: &ClassTable) -> (r: Result<FuncTable, SemaError>)
    ensures
        match r {
            Ok(t) => func_table_spec(program_view(*program), classes.name_seq()) == Ok::<Seq<FuncSigV>, SemaErrorV>(t@)
                && crate::sema::class_table::names_distinct(func_names(t@)),
            Err(e) => (func_table_spec(program_view(*program), classes.name_seq())) matches Err(x) && e.agrees(x),
        },
{
    let ghost items = program_view(*program);
    let ghost names = classes.name_seq();
    proof {
        lemma_stmts_view(program.items@);
    }
    let mut funcs: Vec<FuncSig> = Vec::new();
    let mut i: usize = 0;
    assert(funcs@.map_values(|f: FuncSig| f@) =~= Seq::<FuncSigV>::empty());
    while i < program.items.len()
        invariant
            i <= program.items.len(),
            items == program_view(*program),
            names == classes.name_seq(),
            items.len() == program.items.len(),
            forall|k: int| 0 <= k < items.len() ==> #[trigger] items[k] == stmt_view(program.items@[k]),
            func_table_spec(items, names) == func_table_from(items, i as nat, funcs@.map_values(|f: FuncSig| f@), names),
            crate::sema::class_table::names_distinct(func_names(funcs@.map_values(|f: FuncSig| f@))),
        decreases program.items.len() - i,
    {
        if let Stmt::FuncDecl(f) = &program.items[i] {
            if has_func(&funcs, f.name.as_str()) {
                return Err(err(msg5("함수 '", f.name.as_str(), "'가 중복 선언되었습니다", "", ""), f.line));
            }
            let (param_names, param_types) = resolve_params(f, classes, f.line)?;
            let ret = resolve_ret(f, classes, f.line)?;
            let ghost before = funcs@;
            let ghost bn = func_names(before.map_values(|g: FuncSig| g@));
            assert(bn =~= before.map_values(|g: FuncSig| g@).map_values(|x: FuncSigV| x.name));
            funcs.push(FuncSig { name: f.name.clone(), param_names, param_types, ret, line: f.line });
            proof {
                let an = func_names(funcs@.map_values(|g: FuncSig| g@));
                assert(an =~= bn.push(f.name@));
                assert forall|a: int, b: int| #![trigger an[a], an[b]] 0 <= a < b < an.len() implies an[a] != an[b] by {
                    if b == bn.len() {
                        assert(an[a] == bn[a]);
                        assert(bn.contains(bn[a]));
                    } else {
                        assert(an[a] == bn[a] && an[b] == bn[b]);
                    }
                }
            }
            assert(funcs@.map_values(|f: FuncSig| f@) =~= before.map_values(|f: FuncSig| f@).push(
                func_sig_spec(names, func_view(*f)),
            ));
        }
        i += 1;
    }
    let t = FuncTable { funcs };
    Ok(t)
}

// ---------------------------------------------------------------------------
// Type compatibility
// ---------------------------------------------------------------------------

/// Whether `expr` is a literal, possibly in parentheses, that may take type `target`.
fn is_literal_compatible(expr: &Expr, target: &Ty) -> (r: bool)
    ensures
        r == rules::literal_compatible(expr_view(*expr), target@),
    decreases expr,
{
    match expr {
        Expr::IntLit(_) => target.is_numeric(),
        Expr::FloatLit(_) => target.is_float(),
        Expr::Grouping(inner) => is_literal_compatible(inner, target),
        _ => false,
    }
}

/// Whether `value_expr`, of type `value_ty`, may be stored where `declared` is
/// expected: `null` where nullable, `[]` where an array, the same type (a nullable
/// value only where nullable), or a literal of a compatible numeric type.
fn assignable(declared: &SemaType, value_expr: &Expr, value_ty: &SemaType) -> (r: bool)
    ensures
        r == rules::assignable(declared@, expr_view(*value_expr), value_ty@),
    decreases value_expr,
{
    if let Ty::NullLit = value_ty.ty {
        return declared.nullable;
    }
    if let Ty::EmptyArrayLit = value_ty.ty {
        return match declared.ty {
            Ty::Array(_) => true,
            _ => false,
        };
    }
    if declared.ty.same(&value_ty.ty) {
        return !value_ty.nullable || declared.nullable;
    }
    match value_expr {
        Expr::IntLit(_) => declared.ty.is_numeric(),
        Expr::FloatLit(_) => declared.ty.is_float(),
        Expr::Grouping(inner) => assignable(declared, inner, value_ty),
        _ => false,
    }
}

/// The common type of two operands of an arithmetic or comparison operator.
fn unify_numeric(lhs_expr: &Expr, lhs_ty: &SemaType, rhs_expr: &Expr, rhs_ty: &SemaType, line: usize) -> (r: Result<
    SemaType,
    SemaError,
>)
    ensures
        match r {
            Ok(t) => rules::unify_numeric(expr_view(*lhs_expr), lhs_ty@, expr_view(*rhs_expr), rhs_ty@) == Some(t@),
            Err(e) => rules::unify_numeric(expr_view(*lhs_expr), lhs_ty@, expr_view(*rhs_expr), rhs_ty@) is None
                && e.line == line && e.message@ == rules::unify_error(expr_view(*lhs_expr), lhs_ty@, expr_view(*rhs_expr), rhs_ty@),
        },
{
    if lhs_ty.nullable || rhs_ty.nullable {
        return Err(err(text("nullable 값은 산술/비교 연산에 직접 사용할 수 없습니다"), line));
    }
    if !lhs_ty.is_numeric() {
        return Err(err(msg2("숫자 타입이 아닙니다: ", lhs_ty.to_text().as_str()), line));
    }
    if !rhs_ty.is_numeric() {
        return Err(err(msg2("숫자 타입이 아닙니다: ", rhs_ty.to_text().as_str()), line));
    }
    if lhs_ty.ty.same(&rhs_ty.ty) {
        return Ok(SemaType::non_null(lhs_ty.ty.duplicate()));
    }
    if is_literal_compatible(lhs_expr, &rhs_ty.ty) {
        return Ok(SemaType::non_null(rhs_ty.ty.duplicate()));
    }
    if is_literal_compatible(rhs_expr, &lhs_ty.ty) {
        return Ok(SemaType::non_null(lhs_ty.ty.duplicate()));
    }
    Err(
        err(
            msg5("피연산자 타입이 일치하지 않습니다: ", lhs_ty.to_text().as_str(), " vs ", rhs_ty.to_text().as_str(), ""),
            line,
        ),
    )
}

/// Whether two operands may be compared with `==` or `!=`.
fn check_equality_operands(lhs_expr: &Expr, lhs_ty: &SemaType, rhs_expr: &Expr, rhs_ty: &SemaType, line: usize) -> (r:
    Result<(), SemaError>)
    ensures
        match r {
            Ok(()) => rules::equality_ok(expr_view(*lhs_expr), lhs_ty@, expr_view(*rhs_expr), rhs_ty@),
            Err(e) => !rules::equality_ok(expr_view(*lhs_expr), lhs_ty@, expr_view(*rhs_expr), rhs_ty@) && e.line == line
                && e.message@ == "'=='/'!='로 비교할 수 없는 타입입니다: "@ + sema_type_text(lhs_ty@) + " vs "@ + sema_type_text(rhs_ty@)
                + ""@,
        },
{
    if let Ty::NullLit = lhs_ty.ty {
        return Ok(());
    }
    if let Ty::NullLit = rhs_ty.ty {
        return Ok(());
    }
    if lhs_ty.ty.same(&rhs_ty.ty) {
        return Ok(());
    }
    if is_literal_compatible(lhs_expr, &rhs_ty.ty) || is_literal_compatible(rhs_expr, &lhs_ty.ty) {
        return Ok(());
    }
    Err(
        err(
            msg5("'=='/'!='로 비교할 수 없는 타입입니다: ", lhs_ty.to_text().as_str(), " vs ", rhs_ty.to_text().as_str(), ""),
            line,
        ),
    )
}

/// Whether running `stmts` surely returns a value: some statement is a `return`
/// with a value, or an `if` with an `else` whose every branch surely returns.
fn block_always_returns(stmts: &Vec<Stmt>) -> (r: bool)
    ensures
        r == rules::block_always_returns(stmts_view(stmts@), 0),
    decreases stmts_view(stmts@), 1nat,
{
    proof {
        lemma_stmts_view(stmts@);
    }
    let ghost sv = stmts_view(stmts@);
    let mut i: usize = 0;
    while i < stmts.len()
        invariant
            i <= stmts.len(),
            sv == stmts_view(stmts@),
            sv.len() == stmts.len(),
            forall|k: int| 0 <= k < stmts.len() ==> #[trigger] sv[k] == stmt_view(stmts@[k]),
            rules::block_always_returns(sv, 0) == rules::block_always_returns(sv, i as nat),
        decreases stmts.len() - i,
    {
        if stmt_always_returns(&stmts[i]) {
            return true;
        }
        i += 1;
    }
    false
}

fn stmt_always_returns(stmt: &Stmt) -> (r: bool)
    ensures
        r == rules::stmt_always_returns(stmt_view(*stmt)),
    decreases stmt_view(*stmt), 2nat,
{
    match stmt {
        Stmt::Return { value: Some(_), .. } => true,
        Stmt::If(if_stmt) => {
            match &if_stmt.else_body {
                None => false,
                Some(else_body) => {
                    proof {
                        let sv = stmt_view(*stmt);
                        let iv = sv->If_0;
                        assert(decreases_to!(sv => iv));
                        assert(decreases_to!(iv => iv.branches));
                        assert(decreases_to!(iv => iv.else_body));
                        assert(decreases_to!(iv.else_body => iv.else_body->Some_0));
                    }
                    branches_always_return(&if_stmt.branches) && block_always_returns(else_body)
                },
            }
        },
        _ => false,
    }
}

/// Whether the body of every branch surely returns.
fn branches_always_return(branches: &Vec<(Expr, Vec<Stmt>)>) -> (r: bool)
    ensures
        r == rules::branches_always_return(crate::parser::ast::branches_view(branches@), 0),
    decreases crate::parser::ast::branches_view(branches@), 1nat,
{
    proof {
        lemma_branches_view(branches@);
    }
    let ghost bv = crate::parser::ast::branches_view(branches@);
    let mut i: usize = 0;
    while i < branches.len()
        invariant
            i <= branches.len(),
            bv == crate::parser::ast::branches_view(branches@),
            bv.len() == branches.len(),
            forall|k: int|
                0 <= k < branches.len() ==> #[trigger] bv[k] == (expr_view(branches@[k].0), stmts_view(branches@[k].1@)),
            rules::branches_always_return(bv, 0) == rules::branches_always_return(bv, i as nat),
        decreases branches.len() - i,
    {
        proof {
            assert(decreases_to!(bv => bv[i as int]));
            assert(decreases_to!(bv[i as int] => bv[i as int].1));
        }
        if !block_always_returns(&branches[i].1) {
            return false;
        }
        i += 1;
    }
    true
}

/// The line that an error about `expr` is reported at, where it has one (else 0).
fn expr_line(expr: &Expr) -> (l: usize)
    ensures
        l == rules::expr_line(expr_view(*expr)),
    decreases expr,
{
    match expr {
        Expr::New { line, .. } => *line,
        Expr::Call { line, .. } => *line,
        Expr::Member { line, .. } => *line,
        Expr::Index { line, .. } => *line,
        Expr::Cast { line, .. } => *line,
        Expr::Unary { line, .. } => *line,
        Expr::Binary { line, .. } => *line,
        Expr::Assign { line, .. } => *line,
        Expr::Grouping(inner) => expr_line(inner),
        _ => 0,
    }
}

// ---------------------------------------------------------------------------
// The checker
// ---------------------------------------------------------------------------

pub open spec fn cur_view(c: Option<&str>) -> Option<Seq<char>> {
    match c {
        Some(s) => Some(s@),
        None => None,
    }
}

pub open spec fn ret_view(r: Option<&SemaType>) -> Option<SemaTypeV> {
    match r {
        Some(t) => Some(t@),
        None => None,
    }
}

/// Whether an exec result agrees with a rule's result: the same type, or an error
/// with the same line and message.
pub open spec fn ty_res(r: Result<SemaType, SemaError>, s: Result<SemaTypeV, SemaErrorV>) -> bool {
    match r {
        Ok(t) => s == Ok::<SemaTypeV, SemaErrorV>(t@),
        Err(e) => s matches Err(x) && e.agrees(x),
    }
}

pub open spec fn unit_res(r: Result<(), SemaError>, s: Result<(), SemaErrorV>) -> bool {
    match r {
        Ok(_) => s == Ok::<(), SemaErrorV>(()),
        Err(e) => s matches Err(x) && e.agrees(x),
    }
}

/// Whether an exec result agrees with a rule's result, the scopes `after` included.
pub open spec fn env_res(r: Result<(), SemaError>, after: Seq<ScopeV>, s: Result<Seq<ScopeV>, SemaErrorV>) -> bool {
    match r {
        Ok(_) => s == Ok::<Seq<ScopeV>, SemaErrorV>(after),
        Err(e) => s matches Err(x) && e.agrees(x),
    }
}

/// Whether an exec result agrees with an optional type that fails at `line`.
pub open spec fn opt_res(r: Result<SemaType, SemaError>, s: Option<SemaTypeV>, line: usize) -> bool {
    match r {
        Ok(t) => s == Some(t@),
        Err(e) => s is None && e.line == line,
    }
}

/// Whether code in class `cur` may use a member that `owner` declares.
fn visible(is_pub: bool, owner: &String, cur: Option<&str>) -> (r: bool)
    ensures
        r == rules::visible(is_pub, owner@, cur_view(cur)),
{
    if is_pub {
        return true;
    }
    match cur {
        Some(c) => text_eq(c, owner.as_str()),
        None => false,
    }
}

/// The class of a non-nullable class-typed value.
fn require_class(ty: &SemaType, line: usize) -> (r: Result<String, SemaError>)
    ensures
        match r {
            Ok(n) => rules::require_class(ty@) == Some(n@),
            Err(e) => rules::require_class(ty@) is None && e.line == line && e.message@ == rules::no_class_msg(ty@),
        },
{
    if ty.nullable {
        return Err(
            err(msg5("nullable 값 '", ty.to_text().as_str(), "'은(는) null 검사 없이 멤버에 접근할 수 없습니다", "", ""), line),
        );
    }
    match &ty.ty {
        Ty::Class(name) => Ok(name.clone()),
        other => Err(err(msg5("'", other.to_text().as_str(), "' 타입에는 멤버가 없습니다", "", ""), line)),
    }
}

fn index_type(obj_ty: &SemaType, idx_ty: &SemaType, line: usize) -> (r: Result<SemaType, SemaError>)
    ensures
        opt_res(r, rules::index_type(obj_ty@, idx_ty@), line),
        r matches Err(e) ==> e.message@ == rules::index_error(obj_ty@, idx_ty@),
{
    if !idx_ty.is_integer() || idx_ty.nullable {
        return Err(err(msg5("배열 인덱스는 정수 타입이어야 합니다 (실제: ", idx_ty.to_text().as_str(), ")", "", ""), line));
    }
    match &obj_ty.ty {
        Ty::Array(elem) => {
            if obj_ty.nullable {
                Err(err(text("nullable 배열은 null 검사 없이 인덱싱할 수 없습니다"), line))
            } else {
                Ok(SemaType::non_null(elem.duplicate()))
            }
        },
        other => Err(err(msg2("배열 타입이 아니므로 인덱싱할 수 없습니다: ", other.to_text().as_str()), line)),
    }
}

fn cast_type(from: &SemaType, to: SemaType, line: usize) -> (r: Result<SemaType, SemaError>)
    ensures
        opt_res(r, rules::cast_type(from@, to@), line),
        r matches Err(e) ==> e.message@ == rules::cast_error(from@, to@),
{
    if from.nullable || to.nullable {
        return Err(err(text("nullable 값은 캐스팅할 수 없습니다 (먼저 null 검사가 필요합니다)"), line));
    }
    if !from.is_numeric() || !to.is_numeric() {
        return Err(
            err(
                msg5("타입 캐스팅은 숫자 타입 간에만 허용됩니다: ", from.to_text().as_str(), " -> ", to.to_text().as_str(), ""),
                line,
            ),
        );
    }
    Ok(to)
}

fn unary_type(op: UnaryOp, ty: SemaType, line: usize) -> (r: Result<SemaType, SemaError>)
    ensures
        opt_res(r, rules::unary_type(op, ty@), line),
        r matches Err(e) ==> e.message@ == rules::unary_error(op, ty@),
{
    match op {
        UnaryOp::Not => {
            let want = SemaType::non_null(Ty::Bool);
            if !ty.same(&want) {
                return Err(
                    err(msg5("'not'/'!'은 bool 타입에만 사용할 수 있습니다 (실제: ", ty.to_text().as_str(), ")", "", ""), line),
                );
            }
            Ok(want)
        },
        UnaryOp::Neg => {
            if !ty.is_numeric() || ty.nullable {
                return Err(
                    err(msg5("단항 '-'는 숫자 타입에만 사용할 수 있습니다 (실제: ", ty.to_text().as_str(), ")", "", ""), line),
                );
            }
            Ok(ty)
        },
    }
}

fn binary_type(op: BinaryOp, lhs: &Expr, lhs_ty: &SemaType, rhs: &Expr, rhs_ty: &SemaType, line: usize) -> (r: Result<
    SemaType,
    SemaError,
>)
    ensures
        opt_res(r, rules::binary_type(op, expr_view(*lhs), lhs_ty@, expr_view(*rhs), rhs_ty@), line),
        r matches Err(e) ==> e.message@ == rules::binary_error(op, expr_view(*lhs), lhs_ty@, expr_view(*rhs), rhs_ty@),
{
    match op {
        BinaryOp::Add => {
            let str_l = match lhs_ty.ty {
                Ty::Str => true,
                _ => false,
            };
            let str_r = match rhs_ty.ty {
                Ty::Str => true,
                _ => false,
            };
            if str_l && str_r && !lhs_ty.nullable && !rhs_ty.nullable {
                return Ok(SemaType::non_null(Ty::Str));
            }
            match unify_numeric(lhs, lhs_ty, rhs, rhs_ty, line) {
                Ok(t) => Ok(t),
                Err(_) => {
                    let mut m = text("'+' 연산자는 숫자 타입 간 또는 str 타입 간에만 사용할 수 있습니다 (실제: ");
                    push_str(&mut m, lhs_ty.to_text().as_str());
                    push_str(&mut m, " + ");
                    push_str(&mut m, rhs_ty.to_text().as_str());
                    push_str(&mut m, ")");
                    Err(err(m, line))
                },
            }
        },
        BinaryOp::Sub | BinaryOp::Mul | BinaryOp::Div | BinaryOp::Mod => unify_numeric(lhs, lhs_ty, rhs, rhs_ty, line),
        BinaryOp::Lt | BinaryOp::LtEq | BinaryOp::Gt | BinaryOp::GtEq => {
            unify_numeric(lhs, lhs_ty, rhs, rhs_ty, line)?;
            Ok(SemaType::non_null(Ty::Bool))
        },
        BinaryOp::Eq | BinaryOp::NotEq => {
            check_equality_operands(lhs, lhs_ty, rhs, rhs_ty, line)?;
            Ok(SemaType::non_null(Ty::Bool))
        },
        BinaryOp::And | BinaryOp::Or => {
            let want = SemaType::non_null(Ty::Bool);
            if !lhs_ty.same(&want) || !rhs_ty.same(&want) {
                let mut m = text("'and'/'or'의 피연산자는 bool 타입이어야 합니다 (실제: ");
                push_str(&mut m, lhs_ty.to_text().as_str());
                push_str(&mut m, " , ");
                push_str(&mut m, rhs_ty.to_text().as_str());
                push_str(&mut m, ")");
                return Err(err(m, line));
            }
            Ok(want)
        },
    }
}

struct Checker<'a> {
    classes: &'a ClassTable,
    funcs: &'a FuncTable,
}

impl<'a> Checker<'a> {
    spec fn g(&self) -> Ctx {
        Ctx { cs: self.classes@, fs: self.funcs@ }
    }

    /// The type of field `name` of a value of type `obj_ty`.
    fn member_type(&self, obj_ty: &SemaType, name: &String, line: usize, cur: Option<&str>) -> (r: Result<SemaType, SemaError>)
        ensures
            opt_res(r, rules::member_type(self.g().cs, obj_ty@, name@, cur_view(cur)), line),
            r matches Err(e) ==> e.message@ == rules::member_error(self.g().cs, obj_ty@, name@, cur_view(cur)),
    {
        if let Ty::Array(_) = &obj_ty.ty {
            if obj_ty.nullable {
                return Err(err(text("nullable 배열은 null 검사 없이 멤버에 접근할 수 없습니다"), line));
            }
            if text_eq(name.as_str(), "length") {
                return Ok(SemaType::non_null(Ty::I64));
            }
            return Err(err(msg5("배열에는 'length' 외의 필드가 없습니다: '", name.as_str(), "'", "", ""), line));
        }
        let cls = require_class(obj_ty, line)?;
        match self.classes.resolve_field(cls.as_str(), name.as_str()) {
            Some(field) => {
                if !visible(field.is_pub, &field.owner, cur) {
                    let mut m = text("private 필드에 접근할 수 없습니다: '");
                    push_str(&mut m, field.owner.as_str());
                    push_str(&mut m, ".");
                    push_str(&mut m, name.as_str());
                    push_str(&mut m, "'");
                    return Err(err(m, line));
                }
                Ok(field.ty.duplicate())
            },
            None => {
                if self.classes.resolve_method(cls.as_str(), name.as_str()).is_some() {
                    Err(err(msg5("'", name.as_str(), "'는 메서드입니다. 호출하려면 '()'가 필요합니다", "", ""), line))
                } else {
                    Err(err(msg5("클래스 '", cls.as_str(), "'에 정의되지 않은 필드입니다: '", name.as_str(), "'"), line))
                }
            },
        }
    }

    /// The type of `expr` in scopes `env`, inside class `cur`.
    fn check_expr(&self, expr: &Expr, env: &Env, cur: Option<&str>) -> (r: Result<SemaType, SemaError>)
        ensures
            ty_res(r, rules::expr_type(self.g(), env@, expr_view(*expr), cur_view(cur))),
        decreases expr_view(*expr), 2nat,
    {
        match expr {
            Expr::IntLit(_) => Ok(SemaType::non_null(Ty::I32)),
            Expr::FloatLit(_) => Ok(SemaType::non_null(Ty::F64)),
            Expr::StringLit(_) => Ok(SemaType::non_null(Ty::Str)),
            Expr::CharLit(_) => Ok(SemaType::non_null(Ty::Char)),
            Expr::BoolLit(_) => Ok(SemaType::non_null(Ty::Bool)),
            Expr::Null => Ok(SemaType::new(Ty::NullLit, true)),
            Expr::SelfExpr => match env.lookup("self") {
                Some(b) => Ok(b.ty.duplicate()),
                None => Err(err(text("'self'는 메서드 내부에서만 사용할 수 있습니다"), 0)),
            },
            Expr::Ident(name) => match env.lookup(name.as_str()) {
                Some(b) => Ok(b.ty.duplicate()),
                None => Err(err(msg5("정의되지 않은 변수입니다: '", name.as_str(), "'", "", ""), 0)),
            },
            Expr::Grouping(inner) => self.check_expr(inner, env, cur),
            Expr::New { .. } => self.check_new(expr, env, cur),
            Expr::Call { .. } => self.check_call(expr, env, cur),
            Expr::Member { object, name, line } => {
                let obj_ty = self.check_expr(object, env, cur)?;
                self.member_type(&obj_ty, name, *line, cur)
            },
            Expr::ArrayLit { .. } => self.check_array_lit(expr, env, cur),
            Expr::Index { object, index, line } => {
                let obj_ty = self.check_expr(object, env, cur)?;
                let idx_ty = self.check_expr(index, env, cur)?;
                index_type(&obj_ty, &idx_ty, *line)
            },
            Expr::Cast { expr: inner, ty, line } => {
                let from = self.check_expr(inner, env, cur)?;
                proof {
                    assert(self.classes.name_seq() =~= class_names(self.classes@));
                }
                let to = resolve_type(ty, self.classes, *line)?;
                cast_type(&from, to, *line)
            },
            Expr::Unary { op, expr: inner, line } => {
                let t = self.check_expr(inner, env, cur)?;
                unary_type(*op, t, *line)
            },
            Expr::Binary { op, lhs, rhs, line } => {
                let lhs_ty = self.check_expr(lhs, env, cur)?;
                let rhs_ty = self.check_expr(rhs, env, cur)?;
                binary_type(*op, lhs, &lhs_ty, rhs, &rhs_ty, *line)
            },
            Expr::Assign { .. } => self.check_assign(expr, env, cur),
        }
    }

    /// Checks a call's arguments against the parameter types `expected`.
    fn check_args(
        &self,
        expected: &Vec<SemaType>,
        args: &Vec<Expr>,
        line: usize,
        env: &Env,
        cur: Option<&str>,
        what: &str,
    ) -> (r: Result<(), SemaError>)
        ensures
            unit_res(r, rules::call_args_ok(self.g(), env@, types_view(expected@), exprs_view(args@), line as int, cur_view(cur), what@)),
        decreases exprs_view(args@), args@.len() + 1,
    {
        proof {
            lemma_exprs_view(args@);
        }
        let ghost av = exprs_view(args@);
        let ghost pv = types_view(expected@);
        if expected.len() != args.len() {
            let mut m = text("'");
            push_str(&mut m, what);
            push_str(&mut m, "' 호출의 인자 개수가 일치하지 않습니다: 기대 ");
            push_str(&mut m, usize_text(expected.len()).as_str());
            push_str(&mut m, "개, 실제 ");
            push_str(&mut m, usize_text(args.len()).as_str());
            push_str(&mut m, "개");
            return Err(err(m, line));
        }
        let mut i: usize = 0;
        while i < args.len()
            invariant
                i <= args.len(),
                args.len() == expected.len(),
                av == exprs_view(args@),
                pv == types_view(expected@),
                av.len() == args.len(),
                forall|k: int| 0 <= k < args.len() ==> #[trigger] av[k] == expr_view(args@[k]),
                rules::args_ok(self.g(), env@, pv, av, 0, line as int, cur_view(cur), what@) == rules::args_ok(
                    self.g(),
                    env@,
                    pv,
                    av,
                    i as nat,
                    line as int,
                    cur_view(cur),
                    what@,
                ),
            decreases args.len() - i,
        {
            proof {
                assert(decreases_to!(av => av[i as int]));
            }
            let arg_ty = self.check_expr(&args[i], env, cur)?;
            if !assignable(&expected[i], &args[i], &arg_ty) {
                let mut m = text("'");
                push_str(&mut m, what);
                push_str(&mut m, "'의 ");
                push_str(&mut m, usize_text(i + 1).as_str());
                push_str(&mut m, "번째 인자 타입이 일치하지 않습니다: 기대 ");
                push_str(&mut m, expected[i].to_text().as_str());
                push_str(&mut m, ", 실제 ");
                push_str(&mut m, arg_ty.to_text().as_str());
                return Err(err(m, line));
            }
            i += 1;
        }
        Ok(())
    }

    fn check_new(&self, expr: &Expr, env: &Env, cur: Option<&str>) -> (r: Result<SemaType, SemaError>)
        requires
            expr_view(*expr) is New,
        ensures
            ty_res(r, rules::new_type(self.g(), env@, expr_view(*expr), cur_view(cur))),
        decreases expr_view(*expr), 1nat,
    {
        match expr {
            Expr::New { class_name, args, line } => {
                let _class = match self.classes.get(class_name.as_str()) {
                    Some(c) => c,
                    None => return Err(err(msg5("정의되지 않은 클래스입니다: '", class_name.as_str(), "'", "", ""), *line)),
                };
                match self.classes.resolve_method(class_name.as_str(), "init") {
                    Some(ctor) => {
                        self.check_args(&ctor.param_types, args, *line, env, cur, "생성자")?;
                    },
                    None => {
                        if args.len() != 0 {
                            return Err(
                                err(
                                    msg5("클래스 '", class_name.as_str(), "'에는 생성자(init)가 없어 인자를 받을 수 없습니다", "", ""),
                                    *line,
                                ),
                            );
                        }
                    },
                }
                Ok(SemaType::non_null(Ty::Class(class_name.clone())))
            },
            _ => Err(err(text("생성자 호출이 아닙니다"), 0)),
        }
    }

    fn check_call(&self, expr: &Expr, env: &Env, cur: Option<&str>) -> (r: Result<SemaType, SemaError>)
        requires
            expr_view(*expr) is Call,
        ensures
            ty_res(r, rules::call_type(self.g(), env@, expr_view(*expr), cur_view(cur))),
        decreases expr_view(*expr), 1nat,
    {
        match expr {
            Expr::Call { callee, args, line } => match &**callee {
                Expr::Member { object, name, .. } => {
                    proof {
                        let ev = expr_view(*expr);
                        let cv = expr_view(**callee);
                        assert(cv == ExprV::Member { object: Box::new(expr_view(**object)), name: name@, line: cv->Member_line });
                        assert(decreases_to!(ev => cv));
                        assert(decreases_to!(cv => expr_view(**object)));
                    }
                    let obj_ty = self.check_expr(object, env, cur)?;
                    let cls = require_class(&obj_ty, *line)?;
                    let method = match self.classes.resolve_method(cls.as_str(), name.as_str()) {
                        Some(m) => m,
                        None => {
                            return Err(
                                err(msg5("클래스 '", cls.as_str(), "'에 정의되지 않은 메서드입니다: '", name.as_str(), "'"), *line),
                            )
                        },
                    };
                    let is_pub = match self.classes.resolve_method_base_visibility(cls.as_str(), name.as_str()) {
                        Some(b) => b,
                        None => method.is_pub,
                    };
                    if !visible(is_pub, &method.owner, cur) {
                        let mut m = text("private 메서드에 접근할 수 없습니다: '");
                        push_str(&mut m, method.owner.as_str());
                        push_str(&mut m, ".");
                        push_str(&mut m, name.as_str());
                        push_str(&mut m, "'");
                        return Err(err(m, *line));
                    }
                    self.check_args(&method.param_types, args, *line, env, cur, name.as_str())?;
                    Ok(method.ret.duplicate())
                },
                Expr::Ident(name) => {
                    proof {
                        assert(expr_view(**callee) == ExprV::Ident(name@));
                    }
                    proof {
                        lemma_exprs_view(args@);
                    }
                    if text_eq(name.as_str(), "print") && !self.funcs.contains_key("print") {
                        if args.len() != 1 {
                            return Err(err(text("print()는 정확히 1개의 인자를 받습니다"), *line));
                        }
                        self.check_expr(&args[0], env, cur)?;
                        return Ok(SemaType::non_null(Ty::Void));
                    }
                    let func = match self.funcs.get(name.as_str()) {
                        Some(f) => f,
                        None => return Err(err(msg5("정의되지 않은 함수입니다: '", name.as_str(), "'", "", ""), *line)),
                    };
                    self.check_args(&func.param_types, args, *line, env, cur, name.as_str())?;
                    Ok(func.ret.duplicate())
                },
                _ => {
                    proof {
                        assert(!(expr_view(**callee) is Member) && !(expr_view(**callee) is Ident));
                    }
                    Err(err(text("호출할 수 없는 표현식입니다"), *line))
                },
            },
            _ => Err(err(text("호출이 아닙니다"), 0)),
        }
    }

    fn check_array_lit(&self, expr: &Expr, env: &Env, cur: Option<&str>) -> (r: Result<SemaType, SemaError>)
        requires
            expr_view(*expr) is ArrayLit,
        ensures
            ty_res(r, rules::array_type(self.g(), env@, expr_view(*expr), cur_view(cur))),
        decreases expr_view(*expr), 1nat,
    {
        match expr {
            Expr::ArrayLit { elements, line } => {
                proof {
                    lemma_exprs_view(elements@);
                }
                if elements.len() == 0 {
                    return Ok(SemaType::new(Ty::EmptyArrayLit, false));
                }
                let ghost ev = exprs_view(elements@);
                let first_ty = self.check_expr(&elements[0], env, cur)?;
                if first_ty.nullable {
                    return Err(err(text("배열 원소는 nullable 타입일 수 없습니다"), *line));
                }
                let mut i: usize = 1;
                while i < elements.len()
                    invariant
                        1 <= i <= elements.len(),
                        ev == exprs_view(elements@),
                        ev.len() == elements.len(),
                        forall|k: int| 0 <= k < elements.len() ==> #[trigger] ev[k] == expr_view(elements@[k]),
                        decreases_to!(expr_view(*expr) => ev),
                        expr_view(*expr) == (ExprV::ArrayLit { elements: ev, line: *line as int }),
                        ev.len() > 0,
                        !first_ty.nullable,
                        rules::expr_type(self.g(), env@, ev[0], cur_view(cur)) == Ok::<SemaTypeV, SemaErrorV>(first_ty@),
                        rules::elems_ok(self.g(), env@, first_ty@, ev, 1, *line as int, cur_view(cur))
                            == rules::elems_ok(self.g(), env@, first_ty@, ev, i as nat, *line as int, cur_view(cur)),
                    decreases elements.len() - i,
                {
                    proof {
                        assert(decreases_to!(ev => ev[i as int]));
                    }
                    let el_ty = self.check_expr(&elements[i], env, cur)?;
                    if !assignable(&first_ty, &elements[i], &el_ty) {
                        return Err(
                            err(
                                msg5("배열 원소의 타입이 일치하지 않습니다: ", first_ty.to_text().as_str(), " vs ", el_ty.to_text().as_str(), ""),
                                *line,
                            ),
                        );
                    }
                    i += 1;
                }
                Ok(SemaType::non_null(Ty::Array(Box::new(first_ty.ty))))
            },
            _ => Err(err(text("배열 리터럴이 아닙니다"), 0)),
        }
    }

    /// The type of an assignment's target.
    fn check_target(&self, expr: &Expr, env: &Env, cur: Option<&str>) -> (r: Result<SemaType, SemaError>)
        requires
            expr_view(*expr) is Assign,
        ensures
            ty_res(r, rules::target_type(self.g(), env@, expr_view(*expr), cur_view(cur))),
        decreases expr_view(*expr), 0nat,
    {
        match expr {
            Expr::Assign { target, line, .. } => match &**target {
                Expr::Ident(name) => {
                    proof {
                        assert(expr_view(**target) == ExprV::Ident(name@));
                    }
                    let binding = match env.lookup(name.as_str()) {
                        Some(b) => b,
                        None => return Err(err(msg5("정의되지 않은 변수입니다: '", name.as_str(), "'", "", ""), *line)),
                    };
                    if !binding.mutable {
                        return Err(
                            err(
                                msg5("'", name.as_str(), "'은(는) 재대입할 수 없습니다 (let/const로 선언됨, var를 사용하세요)", "", ""),
                                *line,
                            ),
                        );
                    }
                    Ok(binding.ty.duplicate())
                },
                Expr::Member { object, name, .. } => {
                    proof {
                        let ev = expr_view(*expr);
                        let tv = expr_view(**target);
                        assert(tv == ExprV::Member { object: Box::new(expr_view(**object)), name: name@, line: tv->Member_line });
                        assert(decreases_to!(ev => tv));
                        assert(decreases_to!(tv => expr_view(**object)));
                    }
                    let obj_ty = self.check_expr(object, env, cur)?;
                    let cls = require_class(&obj_ty, *line)?;
                    let field = match self.classes.resolve_field(cls.as_str(), name.as_str()) {
                        Some(f) => f,
                        None => {
                            return Err(
                                err(msg5("클래스 '", cls.as_str(), "'에 정의되지 않은 필드입니다: '", name.as_str(), "'"), *line),
                            )
                        },
                    };
                    if !visible(field.is_pub, &field.owner, cur) {
                        let mut m = text("private 필드에 접근할 수 없습니다: '");
                        push_str(&mut m, field.owner.as_str());
                        push_str(&mut m, ".");
                        push_str(&mut m, name.as_str());
                        push_str(&mut m, "'");
                        return Err(err(m, *line));
                    }
                    Ok(field.ty.duplicate())
                },
                Expr::Index { object, index, .. } => {
                    proof {
                        let ev = expr_view(*expr);
                        let tv = expr_view(**target);
                        assert(tv == ExprV::Index {
                            object: Box::new(expr_view(**object)),
                            index: Box::new(expr_view(**index)),
                            line: tv->Index_line,
                        });
                        assert(decreases_to!(ev => tv));
                        assert(decreases_to!(tv => expr_view(**object)));
                        assert(decreases_to!(tv => expr_view(**index)));
                    }
                    let obj_ty = self.check_expr(object, env, cur)?;
                    let idx_ty = self.check_expr(index, env, cur)?;
                    index_type(&obj_ty, &idx_ty, *line)
                },
                _ => {
                    proof {
                        let tv = expr_view(**target);
                        assert(!(tv is Ident) && !(tv is Member) && !(tv is Index));
                    }
                    Err(err(text("대입할 수 없는 대상입니다"), *line))
                },
            },
            _ => Err(err(text("대입이 아닙니다"), 0)),
        }
    }

    fn check_assign(&self, expr: &Expr, env: &Env, cur: Option<&str>) -> (r: Result<SemaType, SemaError>)
        requires
            expr_view(*expr) is Assign,
        ensures
            ty_res(r, rules::assign_type(self.g(), env@, expr_view(*expr), cur_view(cur))),
        decreases expr_view(*expr), 1nat,
    {
        match expr {
            Expr::Assign { op, value, line, .. } => {
                let target_ty = self.check_target(expr, env, cur)?;
                let value_ty = self.check_expr(value, env, cur)?;
                let compound = match op {
                    AssignOp::Assign => false,
                    _ => true,
                };
                if compound && !target_ty.is_numeric() {
                    return Err(
                        err(
                            msg5("복합 대입 연산자는 숫자 타입에만 사용할 수 있습니다 (실제: ", target_ty.to_text().as_str(), ")", "", ""),
                            *line,
                        ),
                    );
                }
                if !assignable(&target_ty, value, &value_ty) {
                    return Err(
                        err(
                            msg5("대입 타입이 일치하지 않습니다: ", target_ty.to_text().as_str(), " <- ", value_ty.to_text().as_str(), ""),
                            *line,
                        ),
                    );
                }
                Ok(target_ty)
            },
            _ => Err(err(text("대입이 아닙니다"), 0)),
        }
    }
}

impl<'a> Checker<'a> {
    /// Checks that a condition is a non-nullable `bool`.
    fn expect_bool(&self, expr: &Expr, env: &Env, cur: Option<&str>) -> (r: Result<(), SemaError>)
        ensures
            unit_res(r, rules::cond_ok(self.g(), env@, expr_view(*expr), cur_view(cur))),
    {
        let ty = self.check_expr(expr, env, cur)?;
        if !ty.same(&SemaType::non_null(Ty::Bool)) {
            return Err(err(msg5("조건식은 bool 타입이어야 합니다 (실제: ", ty.to_text().as_str(), ")", "", ""), expr_line(expr)));
        }
        Ok(())
    }

    /// Checks statements in turn, in the current scopes.
    fn check_block(&self, stmts: &Vec<Stmt>, env: &mut Env, ret: Option<&SemaType>, in_loop: bool, cur: Option<&str>) -> (r:
        Result<(), SemaError>)
        requires
            old(env)@.len() >= 1,
        ensures
            env_res(
                r,
                final(env)@,
                rules::block_result(self.g(), old(env)@, stmts_view(stmts@), 0, ret_view(ret), in_loop, cur_view(cur)),
            ),
            r is Ok ==> final(env)@.len() == old(env)@.len(),
        decreases stmts_view(stmts@), stmts@.len() + 1,
    {
        proof {
            lemma_stmts_view(stmts@);
        }
        let ghost sv = stmts_view(stmts@);
        let ghost env0 = env@;
        let mut i: usize = 0;
        while i < stmts.len()
            invariant
                i <= stmts.len(),
                sv == stmts_view(stmts@),
                sv.len() == stmts.len(),
                forall|k: int| 0 <= k < stmts.len() ==> #[trigger] sv[k] == stmt_view(stmts@[k]),
                env@.len() == env0.len(),
                env0.len() >= 1,
                env0 == old(env)@,
                rules::block_result(self.g(), env0, sv, 0, ret_view(ret), in_loop, cur_view(cur)) == rules::block_result(
                    self.g(),
                    env@,
                    sv,
                    i as nat,
                    ret_view(ret),
                    in_loop,
                    cur_view(cur),
                ),
            decreases stmts.len() - i,
        {
            proof {
                assert(decreases_to!(sv => sv[i as int]));
            }
            self.check_stmt(&stmts[i], env, ret, in_loop, cur)?;
            i += 1;
        }
        Ok(())
    }

    /// Checks a statement; a declaration adds to the innermost scope.
    fn check_stmt(&self, stmt: &Stmt, env: &mut Env, ret: Option<&SemaType>, in_loop: bool, cur: Option<&str>) -> (r: Result<
        (),
        SemaError,
    >)
        requires
            old(env)@.len() >= 1,
        ensures
            env_res(r, final(env)@, rules::stmt_result(self.g(), old(env)@, stmt_view(*stmt), ret_view(ret), in_loop, cur_view(cur))),
            r is Ok ==> final(env)@.len() == old(env)@.len(),
        decreases stmt_view(*stmt), 2nat,
    {
        match stmt {
            Stmt::ClassDecl(c) => Err(err(text("중첩된 class 선언은 아직 지원되지 않습니다 (최상위에서만 허용)"), c.line)),
            Stmt::FuncDecl(f) => Err(
                err(text("중첩된 fn 선언은 아직 지원되지 않습니다 (최상위 또는 클래스 내부에서만 허용)"), f.line),
            ),
            Stmt::VarDecl(vd) => self.check_var_decl(vd, env, cur),
            Stmt::If(_) => self.check_if(stmt, env, ret, in_loop, cur),
            Stmt::While(w) => self.check_while(w, env, ret, cur),
            Stmt::For(f) => self.check_for(f, env, ret, cur),
            Stmt::Return { value, line } => self.check_return(value, *line, ret, env, cur),
            Stmt::Break { line } => {
                if !in_loop {
                    return Err(err(text("루프 바깥에서 'break'를 사용할 수 없습니다"), *line));
                }
                Ok(())
            },
            Stmt::Continue { line } => {
                if !in_loop {
                    return Err(err(text("루프 바깥에서 'continue'를 사용할 수 없습니다"), *line));
                }
                Ok(())
            },
            Stmt::Expr(e) => {
                self.check_expr(e, env, cur)?;
                Ok(())
            },
        }
    }

    /// Checks `let`/`var`/`const`: the value's type must fit the written type, if any;
    /// else it becomes the variable's type (which `null` and `[]` cannot give).
    fn check_var_decl(&self, vd: &VarDecl, env: &mut Env, cur: Option<&str>) -> (r: Result<(), SemaError>)
        requires
            old(env)@.len() >= 1,
        ensures
            env_res(r, final(env)@, rules::stmt_result(self.g(), old(env)@, stmt_view(Stmt::VarDecl(*vd)), None, false, cur_view(cur))),
            r is Ok ==> final(env)@.len() == old(env)@.len(),
    {
        let value_ty = self.check_expr(&vd.value, env, cur)?;
        let final_ty = match &vd.ty {
            Some(ann) => {
                proof {
                    assert(self.classes.name_seq() =~= class_names(self.classes@));
                }
                let declared = resolve_type(ann, self.classes, vd.line)?;
                if !assignable(&declared, &vd.value, &value_ty) {
                    let mut m = text("변수 '");
                    push_str(&mut m, vd.name.as_str());
                    push_str(&mut m, "'의 선언 타입과 값의 타입이 일치하지 않습니다: ");
                    push_str(&mut m, declared.to_text().as_str());
                    push_str(&mut m, " vs ");
                    push_str(&mut m, value_ty.to_text().as_str());
                    return Err(err(m, vd.line));
                }
                declared
            },
            None => {
                if let Ty::NullLit = value_ty.ty {
                    return Err(
                        err(
                            msg5("'", vd.name.as_str(), "'의 타입을 추론할 수 없습니다 (null은 명시적 타입 주석이 필요합니다)", "", ""),
                            vd.line,
                        ),
                    );
                }
                if let Ty::EmptyArrayLit = value_ty.ty {
                    return Err(
                        err(
                            msg5(
                                "'",
                                vd.name.as_str(),
                                "'의 타입을 추론할 수 없습니다 (빈 배열 리터럴은 명시적 타입 주석이 필요합니다)",
                                "",
                                "",
                            ),
                            vd.line,
                        ),
                    );
                }
                value_ty
            },
        };
        let mutable = match vd.kind {
            VarKind::Var => true,
            _ => false,
        };
        env.define(vd.name.clone(), VarBinding { ty: final_ty, mutable });
        Ok(())
    }

    /// Checks `while`: a `bool` condition, and the body in a scope of its own, inside a loop.
    fn check_while(&self, w: &WhileStmt, env: &mut Env, ret: Option<&SemaType>, cur: Option<&str>) -> (r: Result<(), SemaError>)
        requires
            old(env)@.len() >= 1,
        ensures
            env_res(r, final(env)@, rules::stmt_result(self.g(), old(env)@, stmt_view(Stmt::While(*w)), ret_view(ret), false, cur_view(cur))),
            r is Ok ==> final(env)@.len() == old(env)@.len(),
        decreases stmt_view(Stmt::While(*w)), 1nat,
    {
        self.expect_bool(&w.cond, env, cur)?;
        env.push_scope();
        self.check_block(&w.body, env, ret, true, cur)?;
        env.pop_scope();
        Ok(())
    }

    /// Checks `for x in e:`: `e` must be a non-nullable array, and the body is checked
    /// inside a loop, in a scope where `x` is a mutable element.
    fn check_for(&self, f: &ForStmt, env: &mut Env, ret: Option<&SemaType>, cur: Option<&str>) -> (r: Result<(), SemaError>)
        requires
            old(env)@.len() >= 1,
        ensures
            env_res(r, final(env)@, rules::stmt_result(self.g(), old(env)@, stmt_view(Stmt::For(*f)), ret_view(ret), false, cur_view(cur))),
            r is Ok ==> final(env)@.len() == old(env)@.len(),
        decreases stmt_view(Stmt::For(*f)), 1nat,
    {
        let iter_ty = self.check_expr(&f.iter, env, cur)?;
        let elem_ty = match &iter_ty.ty {
            Ty::Array(elem) => {
                if iter_ty.nullable {
                    return Err(err(text("nullable 배열은 null 검사 없이 순회할 수 없습니다"), f.line));
                }
                elem.duplicate()
            },
            other => {
                return Err(
                    err(msg5("for 루프의 반복 대상은 배열이어야 합니다 (실제: ", other.to_text().as_str(), ")", "", ""), f.line),
                );
            },
        };
        env.push_scope();
        env.define(f.var_name.clone(), VarBinding { ty: SemaType::non_null(elem_ty), mutable: true });
        self.check_block(&f.body, env, ret, true, cur)?;
        env.pop_scope();
        Ok(())
    }

    /// Checks `return`: only inside a function; a value must fit the declared return
    /// type, and a bare `return` needs `void`.
    fn check_return(&self, value: &Option<Expr>, line: usize, ret: Option<&SemaType>, env: &Env, cur: Option<&str>) -> (r: Result<
        (),
        SemaError,
    >)
        requires
            env@.len() >= 1,
        ensures
            env_res(r, env@, rules::stmt_result(self.g(), env@, stmt_view(Stmt::Return { value: *value, line }), ret_view(ret), false, cur_view(cur))),
    {
        let expected = match ret {
            Some(t) => t,
            None => return Err(err(text("함수/메서드 바깥에서는 'return'을 사용할 수 없습니다"), line)),
        };
        match value {
            Some(e) => {
                let vty = self.check_expr(e, env, cur)?;
                if !assignable(expected, e, &vty) {
                    return Err(
                        err(
                            msg5("반환 타입이 일치하지 않습니다: 기대 ", expected.to_text().as_str(), ", 실제 ", vty.to_text().as_str(), ""),
                            line,
                        ),
                    );
                }
                Ok(())
            },
            None => {
                let is_void = match expected.ty {
                    Ty::Void => true,
                    _ => false,
                };
                if !is_void || expected.nullable {
                    return Err(
                        err(msg5("값을 반환해야 합니다 (선언된 반환 타입: ", expected.to_text().as_str(), ")", "", ""), line),
                    );
                }
                Ok(())
            },
        }
    }

    /// Checks an `if`: each condition, then each body (and the `else` body) in a scope
    /// of its own.
    fn check_if(&self, stmt: &Stmt, env: &mut Env, ret: Option<&SemaType>, in_loop: bool, cur: Option<&str>) -> (r: Result<
        (),
        SemaError,
    >)
        requires
            old(env)@.len() >= 1,
            stmt_view(*stmt) is If,
        ensures
            env_res(r, final(env)@, rules::if_result(self.g(), old(env)@, stmt_view(*stmt), ret_view(ret), in_loop, cur_view(cur))),
            r is Ok ==> final(env)@.len() == old(env)@.len(),
        decreases stmt_view(*stmt), 1nat,
    {
        match stmt {
            Stmt::If(if_stmt) => {
                proof {
                    lemma_branches_view(if_stmt.branches@);
                }
                let ghost bv = crate::parser::ast::branches_view(if_stmt.branches@);
                let ghost env0 = env@;
                let mut i: usize = 0;
                while i < if_stmt.branches.len()
                    invariant
                        i <= if_stmt.branches.len(),
                        bv == crate::parser::ast::branches_view(if_stmt.branches@),
                        bv.len() == if_stmt.branches.len(),
                        forall|k: int|
                            0 <= k < if_stmt.branches.len() ==> #[trigger] bv[k] == (
                                expr_view(if_stmt.branches@[k].0),
                                stmts_view(if_stmt.branches@[k].1@),
                            ),
                        decreases_to!(stmt_view(*stmt) => bv),
                        stmt_view(*stmt) is If,
                        stmt_view(*stmt)->If_0.branches == bv,
                        env@.len() == env0.len(),
                        env0.len() >= 1,
                        env0 == old(env)@,
                        rules::branches_result(self.g(), env0, bv, 0, ret_view(ret), in_loop, cur_view(cur))
                            == rules::branches_result(self.g(), env@, bv, i as nat, ret_view(ret), in_loop, cur_view(cur)),
                    decreases if_stmt.branches.len() - i,
                {
                    proof {
                        assert(decreases_to!(bv => bv[i as int]));
                        assert(decreases_to!(bv[i as int] => bv[i as int].1));
                    }
                    let branch = &if_stmt.branches[i];
                    self.expect_bool(&branch.0, env, cur)?;
                    env.push_scope();
                    self.check_block(&branch.1, env, ret, in_loop, cur)?;
                    env.pop_scope();
                    i += 1;
                }
                match &if_stmt.else_body {
                    Some(body) => {
                        proof {
                            let iv = stmt_view(*stmt)->If_0;
                            assert(decreases_to!(stmt_view(*stmt) => iv));
                            assert(decreases_to!(iv => iv.else_body));
                            assert(decreases_to!(iv.else_body => iv.else_body->Some_0));
                        }
                        env.push_scope();
                        self.check_block(body, env, ret, in_loop, cur)?;
                        env.pop_scope();
                    },
                    None => {},
                }
                Ok(())
            },
            _ => Err(err(text("if 문이 아닙니다"), 0)),
        }
    }

    /// Checks a function or method body whose scopes start as `env`: its parameter
    /// types, its return type, its statements, and that it surely returns a value
    /// where one is declared.
    fn check_body(&self, f: &FuncDecl, env: &mut Env, cur: Option<&str>, what: &str) -> (r: Result<(), SemaError>)
        requires
            old(env)@.len() >= 1,
            what@ == (if cur is Some { "메서드"@ } else { "함수"@ }),
        ensures
            match r {
                Ok(_) => rules::body_error(self.g(), func_view(*f), old(env)@, cur_view(cur)) is None,
                Err(e) => rules::body_error(self.g(), func_view(*f), old(env)@, cur_view(cur)) matches Some(x) && e.agrees(x),
            },
    {
        let ghost names = class_names(self.classes@);
        let ghost ps = func_view(*f).params;
        let ghost env0 = env@;
        proof {
            assert(self.classes.name_seq() =~= names);
        }
        let mut i: usize = 0;
        while i < f.params.len()
            invariant
                i <= f.params.len(),
                ps == func_view(*f).params,
                ps.len() == f.params.len(),
                names == class_names(self.classes@),
                self.classes.name_seq() == names,
                env@.len() == env0.len(),
                env0.len() >= 1,
                env0 == old(env)@,
                rules::params_env(names, env0, ps, 0, f.line as int) == rules::params_env(names, env@, ps, i as nat, f.line as int),
            decreases f.params.len() - i,
        {
            let p = &f.params[i];
            assert(ps[i as int] == param_view(*p));
            let ty = resolve_type(&p.ty, self.classes, f.line)?;
            env.define(p.name.clone(), VarBinding { ty, mutable: true });
            i += 1;
        }
        let ret = resolve_ret(f, self.classes, f.line)?;
        self.check_block(&f.body, env, Some(&ret), false, cur)?;
        let is_void = match ret.ty {
            Ty::Void => true,
            _ => false,
        };
        if !is_void && !block_always_returns(&f.body) {
            let mut m = text(what);
            push_str(&mut m, " '");
            push_str(&mut m, f.name.as_str());
            push_str(&mut m, "'의 모든 실행 경로가 값을 반환하지 않습니다 (반환 타입: ");
            push_str(&mut m, ret.to_text().as_str());
            push_str(&mut m, ")");
            return Err(err(m, f.line));
        }
        Ok(())
    }

    fn check_method(&self, class: &ClassDecl, method: &FuncDecl) -> (r: Result<(), SemaError>)
        ensures
            match r {
                Ok(_) => rules::body_error(
                    self.g(),
                    func_view(*method),
                    rules::method_env(class.name@, func_view(*method)),
                    Some(class.name@),
                ) is None,
                Err(e) => rules::body_error(
                    self.g(),
                    func_view(*method),
                    rules::method_env(class.name@, func_view(*method)),
                    Some(class.name@),
                ) matches Some(x) && e.agrees(x),
            },
    {
        let mut env = Env::new();
        if method.has_self {
            env.define(text("self"), VarBinding { ty: SemaType::non_null(Ty::Class(class.name.clone())), mutable: false });
        }
        self.check_body(method, &mut env, Some(class.name.as_str()), "메서드")
    }

    fn check_class(&self, class: &ClassDecl) -> (r: Result<(), SemaError>)
        ensures
            match r {
                Ok(_) => rules::methods_error(self.g(), crate::parser::ast::class_view(*class), 0) is None,
                Err(e) => (rules::methods_error(self.g(), crate::parser::ast::class_view(*class), 0)) matches Some(x) && e.agrees(x),
            },
    {
        proof {
            crate::parser::ast::lemma_funcs_view(class.methods@);
        }
        let ghost cv = crate::parser::ast::class_view(*class);
        let mut j: usize = 0;
        while j < class.methods.len()
            invariant
                j <= class.methods.len(),
                cv == crate::parser::ast::class_view(*class),
                cv.methods.len() == class.methods.len(),
                forall|k: int| 0 <= k < class.methods.len() ==> #[trigger] cv.methods[k] == func_view(class.methods@[k]),
                rules::methods_error(self.g(), cv, 0) == rules::methods_error(self.g(), cv, j as nat),
            decreases class.methods.len() - j,
        {
            self.check_method(class, &class.methods[j])?;
            j += 1;
        }
        Ok(())
    }

    /// Checks one top-level item; a top-level statement runs in the scopes `env`.
    fn check_item(&self, item: &Stmt, env: &mut Env) -> (r: Result<(), SemaError>)
        requires
            old(env)@.len() >= 1,
        ensures
            env_res(r, final(env)@, rules::item_step(self.g(), old(env)@, stmt_view(*item))),
            r is Ok ==> final(env)@.len() == old(env)@.len(),
    {
        proof {
            reveal(rules::item_step);
        }
        match item {
            Stmt::ClassDecl(c) => self.check_class(c),
            Stmt::FuncDecl(f) => self.check_func(f),
            other => self.check_stmt(other, env, None, false, None),
        }
    }

    fn check_func(&self, func: &FuncDecl) -> (r: Result<(), SemaError>)
        ensures
            match r {
                Ok(_) => rules::body_error(self.g(), func_view(*func), env_fresh(), None) is None,
                Err(e) => rules::body_error(self.g(), func_view(*func), env_fresh(), None) matches Some(x) && e.agrees(x),
            },
    {
        let mut env = Env::new();
        self.check_body(func, &mut env, None, "함수")
    }
}

/// Analyses a whole program and hands back its class and function tables for the
/// later stages; the first error found ends the analysis. Every assignment must
/// assign to a variable, a field or an element, as the parser makes sure.
pub fn analyze(program: &Program) -> (r: Result<(ClassTable, FuncTable), SemaError>)
    requires
        program_targets_ok(program_view(*program)),
    ensures
        match r {
            Ok((c, f)) => analyze_spec(program_view(*program)) == Ok::<(Seq<class_table::ClassInfoV>, Seq<FuncSigV>), SemaErrorV>((c@, f@)),
            Err(e) => analyze_spec(program_view(*program)) matches Err(x) && e.agrees(x),
        },
{
    let classes = build_class_table(program)?;
    proof {
        assert(classes.name_seq() =~= class_names(classes@));
    }
    let funcs = build_func_table(program, &classes)?;
    let ghost items = program_view(*program);
    let ghost g = Ctx { cs: classes@, fs: funcs@ };
    proof {
        lemma_stmts_view(program.items@);
    }
    {
        let checker = Checker { classes: &classes, funcs: &funcs };
        let mut env = Env::new();
        let mut i: usize = 0;
        while i < program.items.len()
            invariant
                i <= program.items.len(),
                items == program_view(*program),
                items.len() == program.items.len(),
                forall|k: int| 0 <= k < items.len() ==> #[trigger] items[k] == stmt_view(program.items@[k]),
                checker.g() == g,
                env@.len() >= 1,
                crate::sema::class_table::class_table_spec(items) == Ok::<Seq<class_table::ClassInfoV>, SemaErrorV>(g.cs),
                func_table_spec(items, class_names(g.cs)) == Ok::<Seq<FuncSigV>, SemaErrorV>(g.fs),
                rules::items_result(g, env_fresh(), items, 0) == rules::items_result(g, env@, items, i as nat),
            decreases program.items.len() - i,
        {
            checker.check_item(&program.items[i], &mut env)?;
            i += 1;
        }
    }
    Ok((classes, funcs))
}

/// Analyses a whole program: `Ok` when every rule holds, else the first error.
pub fn check_program(program: &Program) -> (r: Result<(), SemaError>)
    requires
        program_targets_ok(program_view(*program)),
    ensures
        match r {
            Ok(_) => analyze_spec(program_view(*program)) is Ok,
            Err(e) => (analyze_spec(program_view(*program))) matches Err(x) && e.agrees(x),
        },
{
    match analyze(program) {
        Ok(_) => Ok(()),
        Err(e) => Err(e),
    }
}

} // verus!
