//! Resolved types of the semantic analysis.
//!
//! A `TypeAnnotation` is a type as written (its class names unchecked); a `SemaType`
//! is a type whose class names are known to the class table, with its nullability.

use vstd::prelude::*;

use crate::lexer::token::{keyword_kind, text_eq, KindView};
use crate::parser::grammar::prim_type;
use crate::parser::ast::{base_view, type_view, BaseType, BaseTypeV, TypeAnnotation, TypeV};
use crate::sema::class_table::ClassTable;
use crate::sema::SemaError;
use crate::text::{push_str, text};

verus! {

#[derive(Debug, PartialEq, Eq, Hash)]
pub enum Ty {
    I8,
    I16,
    I32,
    I64,
    U8,
    U16,
    U32,
    U64,
    F32,
    F64,
    Bool,
    Str,
    Char,
    Void,
    /// A user class, known to the class table.
    Class(String),
    /// An array `T[]`; its elements are never nullable.
    Array(Box<Ty>),
    /// The type of the `null` literal alone; no declaration has it.
    NullLit,
    /// The type of the empty array literal `[]` alone; no declaration has it.
    EmptyArrayLit,
}

/// The view of a type: class names as character sequences.
pub enum TyV {
    I8,
    I16,
    I32,
    I64,
    U8,
    U16,
    U32,
    U64,
    F32,
    F64,
    Bool,
    Str,
    Char,
    Void,
    Class(Seq<char>),
    Array(Box<TyV>),
    NullLit,
    EmptyArrayLit,
}

pub open spec fn ty_view(t: Ty) -> TyV
    decreases t,
{
    match t {
        Ty::I8 => TyV::I8,
        Ty::I16 => TyV::I16,
        Ty::I32 => TyV::I32,
        Ty::I64 => TyV::I64,
        Ty::U8 => TyV::U8,
        Ty::U16 => TyV::U16,
        Ty::U32 => TyV::U32,
        Ty::U64 => TyV::U64,
        Ty::F32 => TyV::F32,
        Ty::F64 => TyV::F64,
        Ty::Bool => TyV::Bool,
        Ty::Str => TyV::Str,
        Ty::Char => TyV::Char,
        Ty::Void => TyV::Void,
        Ty::Class(n) => TyV::Class(n@),
        Ty::Array(e) => TyV::Array(Box::new(ty_view(*e))),
        Ty::NullLit => TyV::NullLit,
        Ty::EmptyArrayLit => TyV::EmptyArrayLit,
    }
}

impl View for Ty {
    type V = TyV;

    open spec fn view(&self) -> TyV {
        ty_view(*self)
    }
}

/// A type together with its nullability.
#[derive(Debug, PartialEq, Eq, Hash)]
pub struct SemaType {
    pub ty: Ty,
    pub nullable: bool,
}

pub struct SemaTypeV {
    pub ty: TyV,
    pub nullable: bool,
}

impl View for SemaType {
    type V = SemaTypeV;

    open spec fn view(&self) -> SemaTypeV {
        SemaTypeV { ty: self.ty@, nullable: self.nullable }
    }
}

pub open spec fn is_integer_ty(t: TyV) -> bool {
    t is I8 || t is I16 || t is I32 || t is I64 || t is U8 || t is U16 || t is U32 || t is U64
}

pub open spec fn is_float_ty(t: TyV) -> bool {
    t is F32 || t is F64
}

pub open spec fn is_numeric_ty(t: TyV) -> bool {
    is_integer_ty(t) || is_float_ty(t)
}

/// The non-nullable type `t`.
pub open spec fn nn(t: TyV) -> SemaTypeV {
    SemaTypeV { ty: t, nullable: false }
}

/// How a type is written in messages.
pub open spec fn ty_text(t: TyV) -> Seq<char>
    decreases t,
{
    match t {
        TyV::I8 => "i8"@,
        TyV::I16 => "i16"@,
        TyV::I32 => "i32"@,
        TyV::I64 => "i64"@,
        TyV::U8 => "u8"@,
        TyV::U16 => "u16"@,
        TyV::U32 => "u32"@,
        TyV::U64 => "u64"@,
        TyV::F32 => "f32"@,
        TyV::F64 => "f64"@,
        TyV::Bool => "bool"@,
        TyV::Str => "str"@,
        TyV::Char => "char"@,
        TyV::Void => "void"@,
        TyV::Class(n) => n,
        TyV::Array(e) => ty_text(*e) + "[]"@,
        TyV::NullLit => "null"@,
        TyV::EmptyArrayLit => "[]"@,
    }
}

/// How a type with its nullability is written in messages: a `?` marks a nullable one.
pub open spec fn sema_type_text(t: SemaTypeV) -> Seq<char> {
    ty_text(t.ty) + if t.nullable { "?"@ } else { Seq::empty() }
}

impl Ty {
    pub fn is_integer(&self) -> (r: bool)
        ensures
            r == is_integer_ty(self@),
    {
        match self {
            Ty::I8 | Ty::I16 | Ty::I32 | Ty::I64 | Ty::U8 | Ty::U16 | Ty::U32 | Ty::U64 => true,
            _ => false,
        }
    }

    pub fn is_float(&self) -> (r: bool)
        ensures
            r == is_float_ty(self@),
    {
        match self {
            Ty::F32 | Ty::F64 => true,
            _ => false,
        }
    }

    pub fn is_numeric(&self) -> (r: bool)
        ensures
            r == is_numeric_ty(self@),
    {
        self.is_integer() || self.is_float()
    }

    /// A copy of this type.
    pub fn duplicate(&self) -> (r: Ty)
        ensures
            r@ == self@,
        decreases self,
    {
        match self {
            Ty::I8 => Ty::I8,
            Ty::I16 => Ty::I16,
            Ty::I32 => Ty::I32,
            Ty::I64 => Ty::I64,
            Ty::U8 => Ty::U8,
            Ty::U16 => Ty::U16,
            Ty::U32 => Ty::U32,
            Ty::U64 => Ty::U64,
            Ty::F32 => Ty::F32,
            Ty::F64 => Ty::F64,
            Ty::Bool => Ty::Bool,
            Ty::Str => Ty::Str,
            Ty::Char => Ty::Char,
            Ty::Void => Ty::Void,
            Ty::Class(n) => Ty::Class(n.clone()),
            Ty::Array(e) => Ty::Array(Box::new(e.duplicate())),
            Ty::NullLit => Ty::NullLit,
            Ty::EmptyArrayLit => Ty::EmptyArrayLit,
        }
    }

    /// Whether two types are the same.
    pub fn same(&self, other: &Ty) -> (r: bool)
        ensures
            r == (self@ == other@),
        decreases self,
    {
        match (self, other) {
            (Ty::I8, Ty::I8) => true,
            (Ty::I16, Ty::I16) => true,
            (Ty::I32, Ty::I32) => true,
            (Ty::I64, Ty::I64) => true,
            (Ty::U8, Ty::U8) => true,
            (Ty::U16, Ty::U16) => true,
            (Ty::U32, Ty::U32) => true,
            (Ty::U64, Ty::U64) => true,
            (Ty::F32, Ty::F32) => true,
            (Ty::F64, Ty::F64) => true,
            (Ty::Bool, Ty::Bool) => true,
            (Ty::Str, Ty::Str) => true,
            (Ty::Char, Ty::Char) => true,
            (Ty::Void, Ty::Void) => true,
            (Ty::Class(a), Ty::Class(b)) => {
                let r = text_eq(a.as_str(), b.as_str());
                proof {
                    if !r {
                        assert(self@->Class_0 != other@->Class_0);
                    }
                }
                r
            },
            (Ty::Array(a), Ty::Array(b)) => {
                let r = a.same(b);
                proof {
                    if !r {
                        assert(self@->Array_0 != other@->Array_0);
                    }
                }
                r
            },
            (Ty::NullLit, Ty::NullLit) => true,
            (Ty::EmptyArrayLit, Ty::EmptyArrayLit) => true,
            _ => false,
        }
    }

    /// How this type is written in messages.
    pub fn to_text(&self) -> (s: String)
        ensures
            s@ == ty_text(self@),
        decreases self,
    {
        let r = match self {
            Ty::I8 => text("i8"),
            Ty::I16 => text("i16"),
            Ty::I32 => text("i32"),
            Ty::I64 => text("i64"),
            Ty::U8 => text("u8"),
            Ty::U16 => text("u16"),
            Ty::U32 => text("u32"),
            Ty::U64 => text("u64"),
            Ty::F32 => text("f32"),
            Ty::F64 => text("f64"),
            Ty::Bool => text("bool"),
            Ty::Str => text("str"),
            Ty::Char => text("char"),
            Ty::Void => text("void"),
            Ty::Class(n) => n.clone(),
            Ty::Array(e) => {
                let mut s = e.to_text();
                push_str(&mut s, "[]");
                s
            },
            Ty::NullLit => text("null"),
            Ty::EmptyArrayLit => text("[]"),
        };
        r
    }
}

impl SemaType {
    pub fn new(ty: Ty, nullable: bool) -> (r: SemaType)
        ensures
            r@ == (SemaTypeV { ty: ty@, nullable }),
    {
        SemaType { ty, nullable }
    }

    pub fn non_null(ty: Ty) -> (r: SemaType)
        ensures
            r@ == nn(ty@),
    {
        SemaType { ty, nullable: false }
    }

    pub fn is_numeric(&self) -> (r: bool)
        ensures
            r == is_numeric_ty(self@.ty),
    {
        self.ty.is_numeric()
    }

    pub fn is_integer(&self) -> (r: bool)
        ensures
            r == is_integer_ty(self@.ty),
    {
        self.ty.is_integer()
    }

    pub fn is_float(&self) -> (r: bool)
        ensures
            r == is_float_ty(self@.ty),
    {
        self.ty.is_float()
    }

    /// A copy of this type.
    pub fn duplicate(&self) -> (r: SemaType)
        ensures
            r@ == self@,
    {
        SemaType { ty: self.ty.duplicate(), nullable: self.nullable }
    }

    /// Whether two types are the same, nullability included.
    pub fn same(&self, other: &SemaType) -> (r: bool)
        ensures
            r == (self@ == other@),
    {
        self.nullable == other.nullable && self.ty.same(&other.ty)
    }

    /// How this type is written in messages.
    pub fn to_text(&self) -> (s: String)
        ensures
            s@ == sema_type_text(self@),
    {
        let mut s = self.ty.to_text();
        if self.nullable {
            push_str(&mut s, "?");
        }
        proof {
            if !self.nullable {
                assert(s@ =~= sema_type_text(self@));
            }
        }
        s
    }
}

/// The type that a base type stands for, or `None` where it names a class not
/// among `names`.
pub open spec fn resolve_base_spec(names: Seq<Seq<char>>, b: BaseTypeV) -> Option<TyV>
    decreases b,
{
    match b {
        BaseTypeV::I8 => Some(TyV::I8),
        BaseTypeV::I16 => Some(TyV::I16),
        BaseTypeV::I32 => Some(TyV::I32),
        BaseTypeV::I64 => Some(TyV::I64),
        BaseTypeV::U8 => Some(TyV::U8),
        BaseTypeV::U16 => Some(TyV::U16),
        BaseTypeV::U32 => Some(TyV::U32),
        BaseTypeV::U64 => Some(TyV::U64),
        BaseTypeV::F32 => Some(TyV::F32),
        BaseTypeV::F64 => Some(TyV::F64),
        BaseTypeV::Bool => Some(TyV::Bool),
        BaseTypeV::Str => Some(TyV::Str),
        BaseTypeV::Char => Some(TyV::Char),
        BaseTypeV::Void => Some(TyV::Void),
        BaseTypeV::Named(n) => if names.contains(n) { Some(TyV::Class(n)) } else { None },
        BaseTypeV::Array(e) => match resolve_base_spec(names, *e) {
            Some(t) => Some(TyV::Array(Box::new(t))),
            None => None,
        },
    }
}

/// The class name that an annotation names and that is not among `names`: the
/// innermost element of an array type, else the name itself.
pub open spec fn named_base(b: BaseTypeV) -> Seq<char>
    decreases b,
{
    match b {
        BaseTypeV::Named(n) => n,
        BaseTypeV::Array(e) => named_base(*e),
        _ => Seq::empty(),
    }
}

/// The message of an annotation whose type is unknown.
pub open spec fn unknown_type_msg(t: TypeV) -> Seq<char> {
    "정의되지 않은 타입입니다: '"@ + named_base(t.base) + "'"@
}

/// The type that an annotation stands for, given the known class names.
pub open spec fn resolve_type_spec(names: Seq<Seq<char>>, t: TypeV) -> Option<SemaTypeV> {
    match resolve_base_spec(names, t.base) {
        Some(ty) => Some(SemaTypeV { ty, nullable: t.nullable }),
        None => None,
    }
}

/// Each primitive annotation stands for the type of its own name: the name of the
/// type that it resolves to is the keyword that parses back into the same annotation.
pub proof fn lemma_primitive_annotations_keep_their_names(names: Seq<Seq<char>>, b: BaseTypeV)
    requires
        !(b is Named),
        !(b is Array),
    ensures
        resolve_base_spec(names, b) matches Some(t) && keyword_kind(ty_text(t)) matches Some(k) && prim_type(
            KindView::Plain(k),
        ) == Some(b),
{
    // The keywords' texts, and below the characters that tell apart words of one length.
    reveal_strlit("class");
    reveal_strlit("self");
    reveal_strlit("new");
    reveal_strlit("let");
    reveal_strlit("var");
    reveal_strlit("const");
    reveal_strlit("fn");
    reveal_strlit("return");
    reveal_strlit("if");
    reveal_strlit("elif");
    reveal_strlit("else");
    reveal_strlit("while");
    reveal_strlit("for");
    reveal_strlit("in");
    reveal_strlit("break");
    reveal_strlit("continue");
    reveal_strlit("null");
    reveal_strlit("import");
    reveal_strlit("as");
    reveal_strlit("pub");
    reveal_strlit("priv");
    reveal_strlit("and");
    reveal_strlit("or");
    reveal_strlit("not");
    reveal_strlit("true");
    reveal_strlit("false");
    reveal_strlit("i8");
    reveal_strlit("i16");
    reveal_strlit("i32");
    reveal_strlit("i64");
    reveal_strlit("u8");
    reveal_strlit("u16");
    reveal_strlit("u32");
    reveal_strlit("u64");
    reveal_strlit("f32");
    reveal_strlit("f64");
    reveal_strlit("bool");
    reveal_strlit("str");
    reveal_strlit("char");
    reveal_strlit("void");
    assert("class"@.len() == 5);
    assert("self"@.len() == 4);
    assert("new"@.len() == 3);
    assert("let"@.len() == 3);
    assert("var"@.len() == 3);
    assert("const"@.len() == 5);
    assert("fn"@.len() == 2);
    assert("return"@.len() == 6);
    assert("if"@.len() == 2);
    assert("elif"@.len() == 4);
    assert("else"@.len() == 4);
    assert("while"@.len() == 5);
    assert("for"@.len() == 3);
    assert("in"@.len() == 2);
    assert("break"@.len() == 5);
    assert("continue"@.len() == 8);
    assert("null"@.len() == 4);
    assert("import"@.len() == 6);
    assert("as"@.len() == 2);
    assert("pub"@.len() == 3);
    assert("priv"@.len() == 4);
    assert("and"@.len() == 3);
    assert("or"@.len() == 2);
    assert("not"@.len() == 3);
    assert("true"@.len() == 4);
    assert("false"@.len() == 5);
    assert("i8"@.len() == 2);
    assert("i16"@.len() == 3);
    assert("i32"@.len() == 3);
    assert("i64"@.len() == 3);
    assert("u8"@.len() == 2);
    assert("u16"@.len() == 3);
    assert("u32"@.len() == 3);
    assert("u64"@.len() == 3);
    assert("f32"@.len() == 3);
    assert("f64"@.len() == 3);
    assert("bool"@.len() == 4);
    assert("str"@.len() == 3);
    assert("char"@.len() == 4);
    assert("void"@.len() == 4);
    match b {
        BaseTypeV::I8 => {
            assert("i8"@[0] != "fn"@[0]);
            assert("i8"@[1] != "if"@[1]);
            assert("i8"@[1] != "in"@[1]);
            assert("i8"@[0] != "as"@[0]);
            assert("i8"@[0] != "or"@[0]);
        },
        BaseTypeV::I16 => {
            assert("i16"@[0] != "new"@[0]);
            assert("i16"@[0] != "let"@[0]);
            assert("i16"@[0] != "var"@[0]);
            assert("i16"@[0] != "for"@[0]);
            assert("i16"@[0] != "pub"@[0]);
            assert("i16"@[0] != "and"@[0]);
            assert("i16"@[0] != "not"@[0]);
        },
        BaseTypeV::I32 => {
            assert("i32"@[0] != "new"@[0]);
            assert("i32"@[0] != "let"@[0]);
            assert("i32"@[0] != "var"@[0]);
            assert("i32"@[0] != "for"@[0]);
            assert("i32"@[0] != "pub"@[0]);
            assert("i32"@[0] != "and"@[0]);
            assert("i32"@[0] != "not"@[0]);
            assert("i32"@[1] != "i16"@[1]);
        },
        BaseTypeV::I64 => {
            assert("i64"@[0] != "new"@[0]);
            assert("i64"@[0] != "let"@[0]);
            assert("i64"@[0] != "var"@[0]);
            assert("i64"@[0] != "for"@[0]);
            assert("i64"@[0] != "pub"@[0]);
            assert("i64"@[0] != "and"@[0]);
            assert("i64"@[0] != "not"@[0]);
            assert("i64"@[1] != "i16"@[1]);
            assert("i64"@[1] != "i32"@[1]);
        },
        BaseTypeV::U8 => {
            assert("u8"@[0] != "fn"@[0]);
            assert("u8"@[0] != "if"@[0]);
            assert("u8"@[0] != "in"@[0]);
            assert("u8"@[0] != "as"@[0]);
            assert("u8"@[0] != "or"@[0]);
            assert("u8"@[0] != "i8"@[0]);
        },
        BaseTypeV::U16 => {
            assert("u16"@[0] != "new"@[0]);
            assert("u16"@[0] != "let"@[0]);
            assert("u16"@[0] != "var"@[0]);
            assert("u16"@[0] != "for"@[0]);
            assert("u16"@[0] != "pub"@[0]);
            assert("u16"@[0] != "and"@[0]);
            assert("u16"@[0] != "not"@[0]);
            assert("u16"@[0] != "i16"@[0]);
            assert("u16"@[0] != "i32"@[0]);
            assert("u16"@[0] != "i64"@[0]);
        },
        BaseTypeV::U32 => {
            assert("u32"@[0] != "new"@[0]);
            assert("u32"@[0] != "let"@[0]);
            assert("u32"@[0] != "var"@[0]);
            assert("u32"@[0] != "for"@[0]);
            assert("u32"@[0] != "pub"@[0]);
            assert("u32"@[0] != "and"@[0]);
            assert("u32"@[0] != "not"@[0]);
            assert("u32"@[0] != "i16"@[0]);
            assert("u32"@[0] != "i32"@[0]);
            assert("u32"@[0] != "i64"@[0]);
            assert("u32"@[1] != "u16"@[1]);
        },
        BaseTypeV::U64 => {
            assert("u64"@[0] != "new"@[0]);
            assert("u64"@[0] != "let"@[0]);
            assert("u64"@[0] != "var"@[0]);
            assert("u64"@[0] != "for"@[0]);
            assert("u64"@[0] != "pub"@[0]);
            assert("u64"@[0] != "and"@[0]);
            assert("u64"@[0] != "not"@[0]);
            assert("u64"@[0] != "i16"@[0]);
            assert("u64"@[0] != "i32"@[0]);
            assert("u64"@[0] != "i64"@[0]);
            assert("u64"@[1] != "u16"@[1]);
            assert("u64"@[1] != "u32"@[1]);
        },
        BaseTypeV::F32 => {
            assert("f32"@[0] != "new"@[0]);
            assert("f32"@[0] != "let"@[0]);
            assert("f32"@[0] != "var"@[0]);
            assert("f32"@[1] != "for"@[1]);
            assert("f32"@[0] != "pub"@[0]);
            assert("f32"@[0] != "and"@[0]);
            assert("f32"@[0] != "not"@[0]);
            assert("f32"@[0] != "i16"@[0]);
            assert("f32"@[0] != "i32"@[0]);
            assert("f32"@[0] != "i64"@[0]);
            assert("f32"@[0] != "u16"@[0]);
            assert("f32"@[0] != "u32"@[0]);
            assert("f32"@[0] != "u64"@[0]);
        },
        BaseTypeV::F64 => {
            assert("f64"@[0] != "new"@[0]);
            assert("f64"@[0] != "let"@[0]);
            assert("f64"@[0] != "var"@[0]);
            assert("f64"@[1] != "for"@[1]);
            assert("f64"@[0] != "pub"@[0]);
            assert("f64"@[0] != "and"@[0]);
            assert("f64"@[0] != "not"@[0]);
            assert("f64"@[0] != "i16"@[0]);
            assert("f64"@[0] != "i32"@[0]);
            assert("f64"@[0] != "i64"@[0]);
            assert("f64"@[0] != "u16"@[0]);
            assert("f64"@[0] != "u32"@[0]);
            assert("f64"@[0] != "u64"@[0]);
            assert("f64"@[1] != "f32"@[1]);
        },
        BaseTypeV::Bool => {
            assert("bool"@[0] != "self"@[0]);
            assert("bool"@[0] != "elif"@[0]);
            assert("bool"@[0] != "else"@[0]);
            assert("bool"@[0] != "null"@[0]);
            assert("bool"@[0] != "priv"@[0]);
            assert("bool"@[0] != "true"@[0]);
        },
        BaseTypeV::Str => {
            assert("str"@[0] != "new"@[0]);
            assert("str"@[0] != "let"@[0]);
            assert("str"@[0] != "var"@[0]);
            assert("str"@[0] != "for"@[0]);
            assert("str"@[0] != "pub"@[0]);
            assert("str"@[0] != "and"@[0]);
            assert("str"@[0] != "not"@[0]);
            assert("str"@[0] != "i16"@[0]);
            assert("str"@[0] != "i32"@[0]);
            assert("str"@[0] != "i64"@[0]);
            assert("str"@[0] != "u16"@[0]);
            assert("str"@[0] != "u32"@[0]);
            assert("str"@[0] != "u64"@[0]);
            assert("str"@[0] != "f32"@[0]);
            assert("str"@[0] != "f64"@[0]);
        },
        BaseTypeV::Char => {
            assert("char"@[0] != "self"@[0]);
            assert("char"@[0] != "elif"@[0]);
            assert("char"@[0] != "else"@[0]);
            assert("char"@[0] != "null"@[0]);
            assert("char"@[0] != "priv"@[0]);
            assert("char"@[0] != "true"@[0]);
            assert("char"@[0] != "bool"@[0]);
        },
        BaseTypeV::Void => {
            assert("void"@[0] != "self"@[0]);
            assert("void"@[0] != "elif"@[0]);
            assert("void"@[0] != "else"@[0]);
            assert("void"@[0] != "null"@[0]);
            assert("void"@[0] != "priv"@[0]);
            assert("void"@[0] != "true"@[0]);
            assert("void"@[0] != "bool"@[0]);
            assert("void"@[0] != "char"@[0]);
        },
        _ => {},
    }
}

/// Distinct annotations stand for distinct types.
pub proof fn lemma_resolve_injective(names: Seq<Seq<char>>, b1: BaseTypeV, b2: BaseTypeV)
    requires
        resolve_base_spec(names, b1) is Some,
        resolve_base_spec(names, b1) == resolve_base_spec(names, b2),
    ensures
        b1 == b2,
    decreases b1,
{
    if let BaseTypeV::Array(e1) = b1 {
        if let BaseTypeV::Array(e2) = b2 {
            lemma_resolve_injective(names, *e1, *e2);
        }
    }
}

/// An unsigned annotation stands for an unsigned integer type, a signed one for a
/// signed integer type, and a float annotation for a float type.
pub proof fn lemma_resolve_keeps_signedness(names: Seq<Seq<char>>, b: BaseTypeV)
    ensures
        (b is U8 || b is U16 || b is U32 || b is U64) ==> (resolve_base_spec(names, b) matches Some(t) && is_integer_ty(t)
            && !crate::codegen::types::is_signed_ty(t)),
        (b is I8 || b is I16 || b is I32 || b is I64) ==> (resolve_base_spec(names, b) matches Some(t)
            && crate::codegen::types::is_signed_ty(t)),
        (b is F32 || b is F64) ==> (resolve_base_spec(names, b) matches Some(t) && is_float_ty(t)),
{
}

/// Resolves an annotation against the class table; an unknown class name is an error
/// reported at `line`.
pub fn resolve_type(ann: &TypeAnnotation, classes: &ClassTable, line: usize) -> (r: Result<
    SemaType,
    SemaError,
>)
    ensures
        match r {
            Ok(t) => resolve_type_spec(classes.name_seq(), type_view(*ann)) == Some(t@),
            Err(e) => resolve_type_spec(classes.name_seq(), type_view(*ann)) is None && e.line == line
                && e.message@ == unknown_type_msg(type_view(*ann)),
        },
{
    let ty = resolve_base_type(&ann.base, classes, line)?;
    Ok(SemaType::new(ty, ann.nullable))
}

fn resolve_base_type(base: &BaseType, classes: &ClassTable, line: usize) -> (r: Result<Ty, SemaError>)
    ensures
        match r {
            Ok(t) => resolve_base_spec(classes.name_seq(), base_view(*base)) == Some(t@),
            Err(e) => resolve_base_spec(classes.name_seq(), base_view(*base)) is None && e.line == line
                && e.message@ == "정의되지 않은 타입입니다: '"@ + named_base(base_view(*base)) + "'"@,
        },
    decreases base,
{
    match base {
        BaseType::I8 => Ok(Ty::I8),
        BaseType::I16 => Ok(Ty::I16),
        BaseType::I32 => Ok(Ty::I32),
        BaseType::I64 => Ok(Ty::I64),
        BaseType::U8 => Ok(Ty::U8),
        BaseType::U16 => Ok(Ty::U16),
        BaseType::U32 => Ok(Ty::U32),
        BaseType::U64 => Ok(Ty::U64),
        BaseType::F32 => Ok(Ty::F32),
        BaseType::F64 => Ok(Ty::F64),
        BaseType::Bool => Ok(Ty::Bool),
        BaseType::Str => Ok(Ty::Str),
        BaseType::Char => Ok(Ty::Char),
        BaseType::Void => Ok(Ty::Void),
        BaseType::Named(name) => {
            if !classes.contains(name.as_str()) {
                let mut message = text("정의되지 않은 타입입니다: '");
                push_str(&mut message, name.as_str());
                push_str(&mut message, "'");
                return Err(SemaError { message, line });
            }
            Ok(Ty::Class(name.clone()))
        },
        BaseType::Array(elem) => {
            let t = resolve_base_type(elem, classes, line)?;
            Ok(Ty::Array(Box::new(t)))
        },
    }
}

} // verus!
