//! LLVM types of JavaGX values, and the struct type of each class.

use vstd::prelude::*;

use inkwell::context::Context;
use inkwell::types::{BasicMetadataTypeEnum, BasicTypeEnum, StructType};

use crate::codegen::layout::{chain_known, entries_view, flat_fields};
use crate::codegen::llvm;
use crate::codegen::{is_value_ty, llvm_kind, llvm_kind_spec, CodegenError, LlvmKind};
use crate::parser::ast::{ClassDeclV, StmtV};
use crate::sema::class_table::{
    chain_ends, class_decls, class_index, class_index_from, class_info_spec, class_table_spec, decl_names, first_cyclic_from,
    lookup_class, missing_super_from, names_view, skeleton_spec, ClassInfoV, ClassTable,
};
use crate::sema::rules::{analyze_spec, class_names};
use crate::sema::types::{SemaType, SemaTypeV, Ty, TyV};
use crate::text::{push_str, text};

verus! {

/// The struct type of a class, with its fields: those of its ancestors first.
pub struct ClassLayout<'ctx> {
    pub name: String,
    pub struct_ty: StructType<'ctx>,
    pub fields: Vec<(String, SemaType)>,
}

/// Whether every class's chain of superclasses is in the table and ends.
pub open spec fn layouts_known(cs: Seq<ClassInfoV>) -> bool {
    forall|i: int| 0 <= i < cs.len() ==> chain_known(cs, #[trigger] cs[i].name, cs.len() + 1)
}

/// The layouts line up with the classes of `cs`, position by position.
pub open spec fn layouts_match(ls: Seq<ClassLayout>, cs: Seq<ClassInfoV>) -> bool {
    &&& ls.len() == cs.len()
    &&& forall|i: int|
        0 <= i < ls.len() ==> (#[trigger] ls[i]).name@ == cs[i].name && entries_view(ls[i].fields@) == flat_fields(
            cs,
            cs[i].name,
            cs.len() + 1,
        )
}

/// The last position of a field named `n` (a later field hides an earlier one).
pub open spec fn field_slot(fs: Seq<(Seq<char>, SemaTypeV)>, n: Seq<char>) -> Option<nat>
    decreases fs.len(),
{
    if fs.len() == 0 {
        None
    } else if fs.last().0 == n {
        Some((fs.len() - 1) as nat)
    } else {
        field_slot(fs.drop_last(), n)
    }
}

pub proof fn lemma_field_slot(fs: Seq<(Seq<char>, SemaTypeV)>, n: Seq<char>)
    ensures
        field_slot(fs, n) matches Some(j) ==> j < fs.len() && fs[j as int].0 == n,
    decreases fs.len(),
{
    if fs.len() > 0 && fs.last().0 != n {
        lemma_field_slot(fs.drop_last(), n);
    }
}

/// Whether values of type `t` have an LLVM type: `t` has values, and a class type
/// names a class of the table.
pub open spec fn has_llvm_type(names: Seq<Seq<char>>, t: TyV) -> bool {
    is_value_ty(t) && (t matches TyV::Class(n) ==> names.contains(n))
}

/// The LLVM type of values of type `ty`: integers by width (`char` as a 32-bit code
/// point, `bool` as `i1`), floats, strings and arrays as a `{ i8*, i64 }` pair, and
/// objects as byte pointers; `None` for types that have no values and for classes
/// that the table lacks.
pub fn sema_ty_to_llvm<'ctx>(c: &'ctx Context, classes: &ClassTable, ty: &SemaType) -> (r: Option<BasicTypeEnum<'ctx>>)
    ensures
        r is Some <==> has_llvm_type(classes.name_seq(), ty@.ty),
{
    match llvm_type_and_kind(c, classes, ty) {
        Some((t, _)) => Some(t),
        None => None,
    }
}

/// `sema_ty_to_llvm`, with the kind of LLVM type chosen: for a number or a `bool`,
/// the kind that the type constructor called reports.
fn llvm_type_and_kind<'ctx>(c: &'ctx Context, classes: &ClassTable, ty: &SemaType) -> (r: Option<(BasicTypeEnum<'ctx>, LlvmKind)>)
    ensures
        r is Some <==> has_llvm_type(classes.name_seq(), ty@.ty),
        r matches Some((_, k)) ==> k == llvm_kind_spec(ty@.ty),
{
    if !value_type(&ty.ty) {
        return None;
    }
    if let Ty::Class(name) = &ty.ty {
        if !classes.contains(name.as_str()) {
            return None;
        }
    }
    let t = match llvm_kind(&ty.ty) {
        LlvmKind::I8 => {
            let (t, k) = llvm::i8_type(c);
            (llvm::int_ty_basic(t), k)
        },
        LlvmKind::I16 => {
            let (t, k) = llvm::i16_type(c);
            (llvm::int_ty_basic(t), k)
        },
        LlvmKind::I32 => {
            let (t, k) = llvm::i32_type(c);
            (llvm::int_ty_basic(t), k)
        },
        LlvmKind::I64 => {
            let (t, k) = llvm::i64_type(c);
            (llvm::int_ty_basic(t), k)
        },
        LlvmKind::F32 => {
            let (t, k) = llvm::f32_type(c);
            (llvm::float_ty_basic(t), k)
        },
        LlvmKind::F64 => {
            let (t, k) = llvm::f64_type(c);
            (llvm::float_ty_basic(t), k)
        },
        LlvmKind::Bool => {
            let (t, k) = llvm::bool_type(c);
            (llvm::int_ty_basic(t), k)
        },
        LlvmKind::Slice => (llvm::struct_ty_basic(str_struct_type(c)), LlvmKind::Slice),
        LlvmKind::ObjectPtr => (llvm::ptr_ty_basic(llvm::byte_ptr_type(c)), LlvmKind::ObjectPtr),
    };
    Some(t)
}

/// `sema_ty_to_llvm` as the type of a function parameter.
pub fn sema_ty_to_metadata<'ctx>(c: &'ctx Context, classes: &ClassTable, ty: &SemaType) -> (r: Option<BasicMetadataTypeEnum<'ctx>>)
    ensures
        r is Some <==> has_llvm_type(classes.name_seq(), ty@.ty),
{
    match sema_ty_to_llvm(c, classes, ty) {
        Some(t) => Some(llvm::ty_meta(t)),
        None => None,
    }
}

/// The LLVM type of `str` values, and of arrays: `{ i8* data, i64 length }`, passed
/// by value.
pub fn str_struct_type<'ctx>(c: &'ctx Context) -> StructType<'ctx> {
    let mut fields: Vec<BasicTypeEnum<'ctx>> = Vec::new();
    fields.push(llvm::ptr_ty_basic(llvm::byte_ptr_type(c)));
    fields.push(llvm::int_ty_basic(llvm::i64_type(c).0));
    llvm::struct_type(c, &fields)
}

pub open spec fn is_signed_ty(t: TyV) -> bool {
    t is I8 || t is I16 || t is I32 || t is I64
}

/// Whether an integer type is signed: LLVM integers carry no sign, so division,
/// remainder, comparison and widening pick their instruction by it.
pub fn is_signed(ty: &Ty) -> (r: bool)
    ensures
        r == is_signed_ty(ty@),
{
    match ty {
        Ty::I8 | Ty::I16 | Ty::I32 | Ty::I64 => true,
        _ => false,
    }
}

/// Whether values of type `ty` exist at run time.
pub fn value_type(ty: &Ty) -> (r: bool)
    ensures
        r == is_value_ty(ty@),
{
    match ty {
        Ty::Void | Ty::NullLit | Ty::EmptyArrayLit => false,
        _ => true,
    }
}

/// Whether every field of every class of `cs`, inherited ones included, has a type
/// with an LLVM type.
pub open spec fn fields_have_types(cs: Seq<ClassInfoV>) -> bool {
    forall|i: int, j: int|
        #![trigger flat_fields(cs, cs[i].name, cs.len() + 1)[j]]
        0 <= i < cs.len() && 0 <= j < flat_fields(cs, cs[i].name, cs.len() + 1).len() ==> has_llvm_type(
            class_names(cs),
            flat_fields(cs, cs[i].name, cs.len() + 1)[j].1.ty,
        )
}

/// The struct types of all classes, in the order of the table: first each class gets
/// an empty named struct `class.<name>`, then each gets its fields. Fails, at the
/// class's line, where a field's type has no values.
pub fn build_class_layouts<'ctx>(c: &'ctx Context, classes: &ClassTable) -> (r: Result<Vec<ClassLayout<'ctx>>, CodegenError>)
    requires
        layouts_known(classes@),
    ensures
        r matches Ok(ls) ==> layouts_match(ls@, classes@),
        r is Ok <==> fields_have_types(classes@),
{
    proof {
        assert(classes.name_seq() =~= class_names(classes@));
    }
    let names = classes.names();
    proof {
        assert(names_view(names@).len() == names@.len());
        assert(classes.name_seq().len() == classes@.len());
        assert forall|i: int| 0 <= i < names@.len() implies #[trigger] names@[i]@ == classes@[i].name by {
            assert(names_view(names@)[i] == classes.name_seq()[i]);
        }
    }
    let mut structs: Vec<StructType<'ctx>> = Vec::new();
    let mut i: usize = 0;
    while i < names.len()
        invariant
            i <= names.len(),
            structs@.len() == i,
        decreases names.len() - i,
    {
        let mut sname = text("class.");
        push_str(&mut sname, names[i].as_str());
        structs.push(llvm::opaque_struct(c, sname.as_str()));
        i += 1;
    }
    let mut layouts: Vec<ClassLayout<'ctx>> = Vec::new();
    let mut k: usize = 0;
    while k < names.len()
        invariant
            k <= names.len(),
            names@.len() == classes@.len(),
            structs@.len() == names@.len(),
            layouts_known(classes@),
            forall|i: int| 0 <= i < names@.len() ==> #[trigger] names@[i]@ == classes@[i].name,
            layouts@.len() == k,
            forall|i: int|
                0 <= i < k ==> (#[trigger] layouts@[i]).name@ == classes@[i].name && entries_view(layouts@[i].fields@)
                    == flat_fields(classes@, classes@[i].name, classes@.len() + 1),
            classes.name_seq() == class_names(classes@),
            forall|i: int, j: int|
                #![trigger flat_fields(classes@, classes@[i].name, classes@.len() + 1)[j]]
                0 <= i < k && 0 <= j < flat_fields(classes@, classes@[i].name, classes@.len() + 1).len() ==> has_llvm_type(
                    class_names(classes@),
                    flat_fields(classes@, classes@[i].name, classes@.len() + 1)[j].1.ty,
                ),
        decreases names.len() - k,
    {
        assert(chain_known(classes@, classes@[k as int].name, classes@.len() + 1));
        let flat = classes.flatten_fields(names[k].as_str());
        let ghost ff = flat_fields(classes@, classes@[k as int].name, classes@.len() + 1);
        let mut body: Vec<BasicTypeEnum<'ctx>> = Vec::new();
        let mut j: usize = 0;
        while j < flat.len()
            invariant
                j <= flat.len(),
                k < names@.len(),
                names@.len() == classes@.len(),
                forall|i: int| 0 <= i < names@.len() ==> #[trigger] names@[i]@ == classes@[i].name,
                ff == flat_fields(classes@, classes@[k as int].name, classes@.len() + 1),
                entries_view(flat@) == ff,
                classes.name_seq() == class_names(classes@),
                forall|jj: int| 0 <= jj < j ==> has_llvm_type(class_names(classes@), #[trigger] ff[jj].1.ty),
            decreases flat.len() - j,
        {
            assert(ff[j as int] == (flat@[j as int].0@, flat@[j as int].1@));
            match sema_ty_to_llvm(c, classes, &flat[j].1) {
                Some(t) => body.push(t),
                None => {
                    let line = match classes.get(names[k].as_str()) {
                        Some(info) => info.line,
                        None => 0,
                    };
                    return Err(CodegenError { message: text("값을 가질 수 없는 타입의 필드입니다"), line });
                },
            }
            j += 1;
        }
        llvm::set_struct_body(structs[k], &body);
        layouts.push(ClassLayout { name: names[k].clone(), struct_ty: structs[k], fields: flat });
        k += 1;
    }
    Ok(layouts)
}

/// The position of the layout of class `name`.
pub fn layout_index(layouts: &Vec<ClassLayout>, name: &str) -> (r: Option<usize>)
    ensures
        r matches Some(i) ==> i < layouts@.len() && layouts@[i as int].name@ == name@,
        r is None ==> forall|i: int| 0 <= i < layouts@.len() ==> (#[trigger] layouts@[i]).name@ != name@,
{
    let mut i: usize = 0;
    while i < layouts.len()
        invariant
            i <= layouts.len(),
            forall|k: int| 0 <= k < i ==> (#[trigger] layouts@[k]).name@ != name@,
        decreases layouts.len() - i,
    {
        if crate::lexer::token::text_eq(layouts[i].name.as_str(), name) {
            return Some(i);
        }
        i += 1;
    }
    None
}

/// The position of field `name` in a layout's fields: the last one of that name.
pub fn field_position(fields: &Vec<(String, SemaType)>, name: &str) -> (r: Option<usize>)
    ensures
        r matches Some(j) ==> field_slot(entries_view(fields@), name@) == Some(j as nat),
        r is None ==> field_slot(entries_view(fields@), name@) is None,
{
    let mut j = fields.len();
    assert(entries_view(fields@).take(j as int) =~= entries_view(fields@));
    while j > 0
        invariant
            j <= fields.len(),
            field_slot(entries_view(fields@), name@) == field_slot(entries_view(fields@).take(j as int), name@),
        decreases j,
    {
        assert(entries_view(fields@).take(j as int).drop_last() =~= entries_view(fields@).take(j - 1));
        if crate::lexer::token::text_eq(fields[j - 1].0.as_str(), name) {
            return Some(j - 1);
        }
        j -= 1;
    }
    None
}

// ---------------------------------------------------------------------------
// Programs that pass analysis have layouts
// ---------------------------------------------------------------------------

/// Two tables with the same names and superclasses, position by position.
spec fn same_shape(t1: Seq<ClassInfoV>, t2: Seq<ClassInfoV>) -> bool {
    &&& t1.len() == t2.len()
    &&& forall|i: int| 0 <= i < t1.len() ==> #[trigger] t1[i].name == t2[i].name && t1[i].superclass == t2[i].superclass
}

/// Whether every class's superclass is a class of the table.
spec fn supers_known(t: Seq<ClassInfoV>) -> bool {
    forall|i: int| 0 <= i < t.len() ==> (#[trigger] t[i].superclass matches Some(s) ==> class_index(t, s) is Some)
}

proof fn lemma_same_index(t1: Seq<ClassInfoV>, t2: Seq<ClassInfoV>, n: Seq<char>, i: nat)
    requires
        same_shape(t1, t2),
    ensures
        class_index_from(t1, n, i) == class_index_from(t2, n, i),
    decreases t1.len() - i,
{
    if i < t1.len() {
        assert(t1[i as int].name == t2[i as int].name);
        lemma_same_index(t1, t2, n, i + 1);
    }
}

proof fn lemma_same_ends(t1: Seq<ClassInfoV>, t2: Seq<ClassInfoV>, sup: Option<Seq<char>>, fuel: nat)
    requires
        same_shape(t1, t2),
    ensures
        chain_ends(t1, sup, fuel) == chain_ends(t2, sup, fuel),
    decreases fuel,
{
    if let Some(n) = sup {
        if fuel > 0 {
            lemma_same_index(t1, t2, n, 0);
            if let Some(j) = class_index(t1, n) {
                crate::sema::class_table::lemma_class_index_from(t1, n, 0);
                assert(t1[j as int].superclass == t2[j as int].superclass);
                lemma_same_ends(t1, t2, t1[j as int].superclass, (fuel - 1) as nat);
            }
        }
    }
}

proof fn lemma_no_cycle_all(t: Seq<ClassInfoV>, i: nat)
    requires
        first_cyclic_from(t, i) is None,
    ensures
        forall|k: int| i <= k < t.len() ==> chain_ends(t, #[trigger] t[k].superclass, t.len()),
    decreases t.len() - i,
{
    if i < t.len() {
        lemma_no_cycle_all(t, i + 1);
    }
}

proof fn lemma_no_missing_all(d: Seq<ClassDeclV>, i: nat, names: Seq<Seq<char>>)
    requires
        missing_super_from(d, i, names) is None,
    ensures
        forall|k: int| i <= k < d.len() ==> (#[trigger] d[k].superclass matches Some(s) ==> names.contains(s)),
    decreases d.len() - i,
{
    if i < d.len() {
        lemma_no_missing_all(d, i + 1, names);
    }
}

/// A chain that ends, in a table that knows every superclass, is known.
proof fn lemma_ends_known(t: Seq<ClassInfoV>, s: Seq<char>, f: nat)
    requires
        supers_known(t),
        class_index(t, s) is Some,
        chain_ends(t, Some(s), f),
    ensures
        chain_known(t, s, f),
    decreases f,
{
    crate::sema::class_table::lemma_class_index_from(t, s, 0);
    let j = class_index(t, s)->Some_0;
    assert(lookup_class(t, s) == Some(t[j as int]));
    if let Some(s2) = t[j as int].superclass {
        lemma_ends_known(t, s2, (f - 1) as nat);
    }
}

/// The classes of a program that passes semantic analysis can be laid out: every
/// chain of superclasses is in the table and ends, as `compile` needs.
pub proof fn lemma_analyzed_classes_have_layouts(items: Seq<StmtV>)
    requires
        analyze_spec(items) is Ok,
    ensures
        layouts_known(analyze_spec(items)->Ok_0.0),
{
    let d = class_decls(items);
    let names = decl_names(d);
    let cs = d.map_values(|c: ClassDeclV| class_info_spec(names, c));
    let sk = d.map_values(|c: ClassDeclV| skeleton_spec(c));
    assert(class_table_spec(items) == Ok::<Seq<ClassInfoV>, crate::sema::SemaErrorV>(cs));
    assert(analyze_spec(items)->Ok_0.0 == cs);
    lemma_no_missing_all(d, 0, names);
    lemma_no_cycle_all(sk, 0);
    assert(same_shape(sk, cs));
    assert forall|i: int| 0 <= i < cs.len() implies (#[trigger] cs[i].superclass matches Some(s) ==> class_index(cs, s)
        is Some) by {
        if let Some(s) = cs[i].superclass {
            assert(d[i].superclass == Some(s));
            assert(names.contains(s));
            let k = choose|k: int| 0 <= k < names.len() && names[k] == s;
            assert(cs[k].name == s);
            crate::sema::class_table::lemma_class_index_from(cs, s, 0);
        }
    }
    assert forall|i: int| 0 <= i < cs.len() implies chain_known(cs, #[trigger] cs[i].name, cs.len() + 1) by {
        let n = cs[i].name;
        crate::sema::class_table::lemma_class_index_from(cs, n, 0);
        let j = class_index(cs, n)->Some_0;
        assert(lookup_class(cs, n) == Some(cs[j as int]));
        if let Some(s) = cs[j as int].superclass {
            assert(chain_ends(sk, sk[j as int].superclass, sk.len()));
            lemma_same_ends(sk, cs, Some(s), cs.len());
            lemma_ends_known(cs, s, cs.len());
        }
    }
}

} // verus!
