//! The class registry: each class's own fields and method signatures, and lookups
//! along the inheritance chain.

use vstd::prelude::*;

use crate::sema::types::{SemaType, SemaTypeV};
use crate::lexer::token::text_eq;
use crate::parser::ast::{
    class_view, func_view, funcs_view, lemma_funcs_view, lemma_stmts_view, param_view, FieldDecl, FuncDecl, program_view, stmt_view, type_view, ClassDecl, ClassDeclV, FieldDeclV,
    FuncDeclV, ParamV, Program, Stmt, StmtV, TypeV,
};
use crate::sema::types::{nn, resolve_type, resolve_type_spec, unknown_type_msg, Ty, TyV};
use crate::sema::{fail, SemaError, SemaErrorV};
use crate::text::{push_str, text};

verus! {

pub struct FieldInfo {
    pub name: String,
    pub ty: SemaType,
    pub is_pub: bool,
    /// The class that declares the field (for visibility checks).
    pub owner: String,
}

pub struct FieldInfoV {
    pub name: Seq<char>,
    pub ty: SemaTypeV,
    pub is_pub: bool,
    pub owner: Seq<char>,
}

impl View for FieldInfo {
    type V = FieldInfoV;

    open spec fn view(&self) -> FieldInfoV {
        FieldInfoV { name: self.name@, ty: self.ty@, is_pub: self.is_pub, owner: self.owner@ }
    }
}

pub struct MethodSig {
    pub name: String,
    pub has_self: bool,
    pub is_pub: bool,
    pub param_names: Vec<String>,
    pub param_types: Vec<SemaType>,
    pub ret: SemaType,
    /// The class that declares the method (for visibility checks).
    pub owner: String,
}

pub struct MethodSigV {
    pub name: Seq<char>,
    pub has_self: bool,
    pub is_pub: bool,
    pub param_names: Seq<Seq<char>>,
    pub param_types: Seq<SemaTypeV>,
    pub ret: SemaTypeV,
    pub owner: Seq<char>,
}

pub open spec fn names_view(v: Seq<String>) -> Seq<Seq<char>> {
    v.map_values(|s: String| s@)
}

pub open spec fn types_view(v: Seq<SemaType>) -> Seq<SemaTypeV> {
    v.map_values(|t: SemaType| t@)
}

impl View for MethodSig {
    type V = MethodSigV;

    open spec fn view(&self) -> MethodSigV {
        MethodSigV {
            name: self.name@,
            has_self: self.has_self,
            is_pub: self.is_pub,
            param_names: names_view(self.param_names@),
            param_types: types_view(self.param_types@),
            ret: self.ret@,
            owner: self.owner@,
        }
    }
}

pub struct ClassInfo {
    pub name: String,
    pub superclass: Option<String>,
    /// The fields that this class itself declares (inherited ones excluded).
    pub fields: Vec<FieldInfo>,
    /// The methods that this class itself declares (inherited ones excluded).
    pub methods: Vec<MethodSig>,
    pub line: usize,
}

pub struct ClassInfoV {
    pub name: Seq<char>,
    pub superclass: Option<Seq<char>>,
    pub fields: Seq<FieldInfoV>,
    pub methods: Seq<MethodSigV>,
    pub line: int,
}

pub open spec fn opt_str_view(s: Option<String>) -> Option<Seq<char>> {
    match s {
        Some(x) => Some(x@),
        None => None,
    }
}

impl View for ClassInfo {
    type V = ClassInfoV;

    open spec fn view(&self) -> ClassInfoV {
        ClassInfoV {
            name: self.name@,
            superclass: opt_str_view(self.superclass),
            fields: self.fields@.map_values(|f: FieldInfo| f@),
            methods: self.methods@.map_values(|m: MethodSig| m@),
            line: self.line as int,
        }
    }
}

/// The classes of a program, each at most once by name.
pub struct ClassTable {
    classes: Vec<ClassInfo>,
}

/// Whether no name occurs twice.
pub open spec fn names_distinct(ns: Seq<Seq<char>>) -> bool {
    forall|i: int, j: int| #![trigger ns[i], ns[j]] 0 <= i < j < ns.len() ==> ns[i] != ns[j]
}

impl View for ClassTable {
    type V = Seq<ClassInfoV>;

    closed spec fn view(&self) -> Seq<ClassInfoV> {
        self.classes@.map_values(|c: ClassInfo| c@)
    }
}

// ---------------------------------------------------------------------------
// Lookups by name
// ---------------------------------------------------------------------------

/// The first position at or after `i` of a class named `n`.
pub open spec fn class_index_from(cs: Seq<ClassInfoV>, n: Seq<char>, i: nat) -> Option<nat>
    decreases cs.len() - i,
{
    if i >= cs.len() {
        None
    } else if cs[i as int].name == n {
        Some(i)
    } else {
        class_index_from(cs, n, i + 1)
    }
}

pub open spec fn class_index(cs: Seq<ClassInfoV>, n: Seq<char>) -> Option<nat> {
    class_index_from(cs, n, 0)
}

pub open spec fn lookup_class(cs: Seq<ClassInfoV>, n: Seq<char>) -> Option<ClassInfoV> {
    match class_index(cs, n) {
        Some(i) => Some(cs[i as int]),
        None => None,
    }
}

/// The first position at or after `i` of a field named `n`.
pub open spec fn field_index_from(fs: Seq<FieldInfoV>, n: Seq<char>, i: nat) -> Option<nat>
    decreases fs.len() - i,
{
    if i >= fs.len() {
        None
    } else if fs[i as int].name == n {
        Some(i)
    } else {
        field_index_from(fs, n, i + 1)
    }
}

/// The first position at or after `i` of a method named `n`.
pub open spec fn method_index_from(ms: Seq<MethodSigV>, n: Seq<char>, i: nat) -> Option<nat>
    decreases ms.len() - i,
{
    if i >= ms.len() {
        None
    } else if ms[i as int].name == n {
        Some(i)
    } else {
        method_index_from(ms, n, i + 1)
    }
}

pub open spec fn own_field(c: ClassInfoV, n: Seq<char>) -> Option<FieldInfoV> {
    match field_index_from(c.fields, n, 0) {
        Some(i) => Some(c.fields[i as int]),
        None => None,
    }
}

pub open spec fn own_method(c: ClassInfoV, n: Seq<char>) -> Option<MethodSigV> {
    match method_index_from(c.methods, n, 0) {
        Some(i) => Some(c.methods[i as int]),
        None => None,
    }
}

// ---------------------------------------------------------------------------
// Walks up the inheritance chain. Each takes at most `fuel` steps; a table
// without inheritance cycles is walked to the top within as many steps as it
// holds classes.
// ---------------------------------------------------------------------------

/// The field named `f` that class `c` declares or inherits, the nearest one first.
pub open spec fn field_chain(cs: Seq<ClassInfoV>, c: Seq<char>, f: Seq<char>, fuel: nat) -> Option<
    FieldInfoV,
>
    decreases fuel,
{
    if fuel == 0 {
        None
    } else {
        match lookup_class(cs, c) {
            None => None,
            Some(info) => match own_field(info, f) {
                Some(fi) => Some(fi),
                None => match info.superclass {
                    Some(s) => field_chain(cs, s, f, (fuel - 1) as nat),
                    None => None,
                },
            },
        }
    }
}

/// The method named `m` that class `c` declares or inherits: an override in a
/// subclass comes before the method it overrides.
pub open spec fn method_chain(cs: Seq<ClassInfoV>, c: Seq<char>, m: Seq<char>, fuel: nat) -> Option<
    MethodSigV,
>
    decreases fuel,
{
    if fuel == 0 {
        None
    } else {
        match lookup_class(cs, c) {
            None => None,
            Some(info) => match own_method(info, m) {
                Some(ms) => Some(ms),
                None => match info.superclass {
                    Some(s) => method_chain(cs, s, m, (fuel - 1) as nat),
                    None => None,
                },
            },
        }
    }
}

/// The visibility of the topmost declaration of method `m` along the chain from `c`,
/// where `acc` holds that of the topmost one seen below `c`. A chain that names a
/// class the table lacks, or that does not end within `fuel` steps, gives `None`.
pub open spec fn base_vis_chain(
    cs: Seq<ClassInfoV>,
    c: Seq<char>,
    m: Seq<char>,
    fuel: nat,
    acc: Option<bool>,
) -> Option<bool>
    decreases fuel,
{
    if fuel == 0 {
        None
    } else {
        match lookup_class(cs, c) {
            None => None,
            Some(info) => {
                let acc2 = match own_method(info, m) {
                    Some(ms) => Some(ms.is_pub),
                    None => acc,
                };
                match info.superclass {
                    Some(s) => base_vis_chain(cs, s, m, (fuel - 1) as nat, acc2),
                    None => acc2,
                }
            },
        }
    }
}

/// Whether `target` is `c` or one of its ancestors.
pub open spec fn subclass_chain(cs: Seq<ClassInfoV>, c: Seq<char>, target: Seq<char>, fuel: nat) -> bool
    decreases fuel,
{
    if fuel == 0 {
        false
    } else if c == target {
        true
    } else {
        match lookup_class(cs, c) {
            Some(info) => match info.superclass {
                Some(s) => subclass_chain(cs, s, target, (fuel - 1) as nat),
                None => false,
            },
            None => false,
        }
    }
}

/// Whether the chain of superclasses starting at `sup` ends (at a class without a
/// superclass, or at a name the table lacks) within `fuel` steps.
pub open spec fn chain_ends(cs: Seq<ClassInfoV>, sup: Option<Seq<char>>, fuel: nat) -> bool
    decreases fuel,
{
    match sup {
        None => true,
        Some(n) => if fuel == 0 {
            false
        } else {
            match class_index(cs, n) {
                None => true,
                Some(j) => chain_ends(cs, cs[j as int].superclass, (fuel - 1) as nat),
            }
        },
    }
}

/// The error of the first class, at or after position `i`, whose chain of
/// superclasses comes back to a class already on it.
pub open spec fn first_cyclic_from(cs: Seq<ClassInfoV>, i: nat) -> Option<SemaErrorV>
    decreases cs.len() - i,
{
    if i >= cs.len() {
        None
    } else if !chain_ends(cs, cs[i as int].superclass, cs.len()) {
        Some(
            fail(
                cs[i as int].line,
                "클래스 상속 관계에 순환이 있습니다: "@ + (cs[i as int].name + cycle_walk(
                    cs,
                    i as int,
                    seq![cs[i as int].name],
                    cs.len(),
                )),
            ),
        )
    } else {
        first_cyclic_from(cs, i + 1)
    }
}

/// The rest of the text of a walk up the superclasses from position `cur`, `seen`
/// the names met so far, with room for `budget` more steps: ` -> ` and each
/// superclass name, ending after a name met before, a name not in the table, a
/// class without a superclass, or when the room runs out.
pub open spec fn cycle_walk(cs: Seq<ClassInfoV>, cur: int, seen: Seq<Seq<char>>, budget: nat) -> Seq<char>
    decreases budget,
{
    if !(0 <= cur < cs.len()) {
        Seq::empty()
    } else {
        match cs[cur].superclass {
            None => Seq::empty(),
            Some(s) => " -> "@ + s + if seen.contains(s) {
                Seq::empty()
            } else {
                match class_index(cs, s) {
                    None => Seq::empty(),
                    Some(j) => if budget == 0 {
                        Seq::empty()
                    } else {
                        cycle_walk(cs, j as int, seen.push(s), (budget - 1) as nat)
                    },
                }
            },
        }
    }
}

/// The table after `insert(info)`: a class of the same name is replaced in place,
/// else the class is added at the end.
pub open spec fn table_insert(cs: Seq<ClassInfoV>, info: ClassInfoV) -> Seq<ClassInfoV> {
    match class_index(cs, info.name) {
        Some(i) => cs.update(i as int, info),
        None => cs.push(info),
    }
}

pub(crate) proof fn lemma_class_index_from(cs: Seq<ClassInfoV>, n: Seq<char>, i: nat)
    ensures
        match class_index_from(cs, n, i) {
            Some(j) => i <= j < cs.len() && cs[j as int].name == n && forall|k: int|
                i <= k < j ==> cs[k].name != n,
            None => forall|k: int| i <= k < cs.len() ==> cs[k].name != n,
        },
    decreases cs.len() - i,
{
    if i < cs.len() && cs[i as int].name != n {
        lemma_class_index_from(cs, n, i + 1);
    }
}

/// The position of the field named `name` among those that `info` declares.
fn field_pos(info: &ClassInfo, name: &str) -> (r: Option<usize>)
    ensures
        match r {
            Some(j) => field_index_from(info@.fields, name@, 0) == Some(j as nat) && j < info.fields.len(),
            None => field_index_from(info@.fields, name@, 0) is None,
        },
{
    let mut j: usize = 0;
    while j < info.fields.len()
        invariant
            j <= info.fields.len(),
            field_index_from(info@.fields, name@, 0) == field_index_from(info@.fields, name@, j as nat),
        decreases info.fields.len() - j,
    {
        if text_eq(info.fields[j].name.as_str(), name) {
            return Some(j);
        }
        j += 1;
    }
    None
}

/// The position of the method named `name` among those that `info` declares.
fn method_pos(info: &ClassInfo, name: &str) -> (r: Option<usize>)
    ensures
        match r {
            Some(j) => method_index_from(info@.methods, name@, 0) == Some(j as nat) && j < info.methods.len(),
            None => method_index_from(info@.methods, name@, 0) is None,
        },
{
    let mut j: usize = 0;
    while j < info.methods.len()
        invariant
            j <= info.methods.len(),
            method_index_from(info@.methods, name@, 0) == method_index_from(info@.methods, name@, j as nat),
        decreases info.methods.len() - j,
    {
        if text_eq(info.methods[j].name.as_str(), name) {
            return Some(j);
        }
        j += 1;
    }
    None
}

/// Every class counts as the same as, or a subclass of, itself.
pub proof fn lemma_subclass_reflexive(cs: Seq<ClassInfoV>, c: Seq<char>, fuel: nat)
    requires
        fuel > 0,
    ensures
        subclass_chain(cs, c, c, fuel),
{
}

/// Being the same as, or a subclass of, is transitive: an ancestor of an ancestor of
/// `a` is an ancestor of `a`, found within the two walks' steps together.
pub proof fn lemma_subclass_transitive(cs: Seq<ClassInfoV>, a: Seq<char>, b: Seq<char>, c: Seq<char>, f1: nat, f2: nat)
    requires
        subclass_chain(cs, a, b, f1),
        subclass_chain(cs, b, c, f2),
    ensures
        subclass_chain(cs, a, c, f1 + f2),
    decreases f1,
{
    if a == b {
        lemma_subclass_more_fuel(cs, b, c, f2, f1 + f2);
    } else {
        let s = lookup_class(cs, a)->Some_0.superclass->Some_0;
        lemma_subclass_transitive(cs, s, b, c, (f1 - 1) as nat, f2);
        assert(((f1 - 1) as nat + f2) == (f1 + f2 - 1) as nat);
    }
}

/// More steps find every ancestor that fewer steps find.
pub proof fn lemma_subclass_more_fuel(cs: Seq<ClassInfoV>, a: Seq<char>, c: Seq<char>, f: nat, g: nat)
    requires
        subclass_chain(cs, a, c, f),
        f <= g,
    ensures
        subclass_chain(cs, a, c, g),
    decreases f,
{
    if a != c {
        let s = lookup_class(cs, a)->Some_0.superclass->Some_0;
        lemma_subclass_more_fuel(cs, s, c, (f - 1) as nat, (g - 1) as nat);
    }
}

/// A superclass of a class is among its ancestors.
pub proof fn lemma_superclass_is_ancestor(cs: Seq<ClassInfoV>, c: Seq<char>, s: Seq<char>, fuel: nat)
    requires
        fuel > 1,
        lookup_class(cs, c) matches Some(info) && info.superclass == Some(s),
    ensures
        subclass_chain(cs, c, s, fuel),
{
    reveal_with_fuel(subclass_chain, 2);
}

/// A method that a class declares itself is the one found for it, whatever its
/// ancestors declare: an override wins over the method it overrides.
pub proof fn lemma_own_method_wins(cs: Seq<ClassInfoV>, c: Seq<char>, m: Seq<char>, fuel: nat)
    requires
        fuel > 0,
        lookup_class(cs, c) matches Some(info) && own_method(info, m) is Some,
    ensures
        method_chain(cs, c, m, fuel) == own_method(lookup_class(cs, c)->Some_0, m),
{
}

/// A method that a class does not declare is looked up in its superclass.
pub proof fn lemma_method_inherited(cs: Seq<ClassInfoV>, c: Seq<char>, m: Seq<char>, s: Seq<char>, fuel: nat)
    requires
        fuel > 0,
        lookup_class(cs, c) matches Some(info) && own_method(info, m) is None && info.superclass == Some(s),
    ensures
        method_chain(cs, c, m, fuel) == method_chain(cs, s, m, (fuel - 1) as nat),
{
}

/// A field that a class does not declare is looked up in its superclass.
pub proof fn lemma_field_inherited(cs: Seq<ClassInfoV>, c: Seq<char>, f: Seq<char>, s: Seq<char>, fuel: nat)
    requires
        fuel > 0,
        lookup_class(cs, c) matches Some(info) && own_field(info, f) is None && info.superclass == Some(s),
    ensures
        field_chain(cs, c, f, fuel) == field_chain(cs, s, f, (fuel - 1) as nat),
{
}

/// Once a declaration of `m` is found above, what was seen below it no longer counts.
proof fn lemma_base_vis_acc(cs: Seq<ClassInfoV>, c: Seq<char>, m: Seq<char>, fuel: nat, acc: Option<bool>)
    requires
        base_vis_chain(cs, c, m, fuel, None) is Some,
    ensures
        base_vis_chain(cs, c, m, fuel, acc) == base_vis_chain(cs, c, m, fuel, None),
    decreases fuel,
{
    if fuel > 0 {
        match lookup_class(cs, c) {
            Some(info) => {
                let a1 = match own_method(info, m) {
                    Some(ms) => Some(ms.is_pub),
                    None => acc,
                };
                let a0 = match own_method(info, m) {
                    Some(ms) => Some(ms.is_pub),
                    None => None,
                };
                match info.superclass {
                    Some(s) => {
                        if own_method(info, m) is None {
                            lemma_base_vis_acc(cs, s, m, (fuel - 1) as nat, acc);
                        } else {
                            assert(a1 == a0);
                        }
                    },
                    None => {},
                }
            },
            None => {},
        }
    }
}

/// The visibility of a method is that of its topmost declaration: a subclass that
/// overrides a method declared above keeps the visibility declared there.
pub proof fn lemma_base_visibility_inherited(cs: Seq<ClassInfoV>, c: Seq<char>, m: Seq<char>, s: Seq<char>, fuel: nat)
    requires
        fuel > 0,
        lookup_class(cs, c) matches Some(info) && info.superclass == Some(s),
        base_vis_chain(cs, s, m, (fuel - 1) as nat, None) is Some,
    ensures
        base_vis_chain(cs, c, m, fuel, None) == base_vis_chain(cs, s, m, (fuel - 1) as nat, None),
{
    let info = lookup_class(cs, c)->Some_0;
    let acc = match own_method(info, m) {
        Some(ms) => Some(ms.is_pub),
        None => None,
    };
    lemma_base_vis_acc(cs, s, m, (fuel - 1) as nat, acc);
}

impl ClassTable {
    /// The names of the classes, in the order of the table.
    pub open spec fn name_seq(&self) -> Seq<Seq<char>> {
        self@.map_values(|c: ClassInfoV| c.name)
    }

    /// No two classes of the table share a name.
    #[verifier::type_invariant]
    spec fn names_unique(self) -> bool {
        names_distinct(self.name_seq())
    }

    pub fn new() -> (t: ClassTable)
        ensures
            t@ == Seq::<ClassInfoV>::empty(),
    {
        ClassTable { classes: Vec::new() }
    }

    /// The number of classes.
    pub fn len(&self) -> (n: usize)
        ensures
            n == self@.len(),
    {
        self.classes.len()
    }

    proof fn lemma_view(&self)
        ensures
            self@.len() == self.classes@.len(),
            forall|i: int| 0 <= i < self@.len() ==> #[trigger] self@[i] == self.classes@[i]@,
    {
    }

    /// The position of the class named `name`.
    fn index_of(&self, name: &str) -> (r: Option<usize>)
        ensures
            match r {
                Some(i) => class_index(self@, name@) == Some(i as nat) && i < self@.len()
                    && self@[i as int].name == name@,
                None => class_index(self@, name@) is None,
            },
    {
        proof {
            self.lemma_view();
            lemma_class_index_from(self@, name@, 0);
        }
        let mut i: usize = 0;
        while i < self.classes.len()
            invariant
                i <= self.classes.len(),
                class_index(self@, name@) == class_index_from(self@, name@, i as nat),
            decreases self.classes.len() - i,
        {
            if text_eq(self.classes[i].name.as_str(), name) {
                return Some(i);
            }
            i += 1;
        }
        None
    }

    /// Adds a class, replacing a class of the same name.
    pub fn insert(&mut self, info: ClassInfo)
        ensures
            final(self)@ == table_insert(old(self)@, info@),
    {
        proof {
            use_type_invariant(&*self);
            self.lemma_view();
        }
        let ghost old_names = self.name_seq();
        let ghost old_view = self@;
        match self.index_of(info.name.as_str()) {
            Some(i) => {
                let mut v: Vec<ClassInfo> = Vec::new();
                std::mem::swap(&mut v, &mut self.classes);
                v.set(i, info);
                proof {
                    let nv = v@.map_values(|c: ClassInfo| c@);
                    assert(nv =~= old_view.update(i as int, info@));
                    assert(nv.map_values(|c: ClassInfoV| c.name) =~= old_names);
                }
                self.classes = v;
                assert(self@ =~= table_insert(old(self)@, info@));
            },
            None => {
                let mut v: Vec<ClassInfo> = Vec::new();
                std::mem::swap(&mut v, &mut self.classes);
                v.push(info);
                proof {
                    lemma_class_index_from(old_view, info@.name, 0);
                    let nv = v@.map_values(|c: ClassInfo| c@);
                    assert(nv =~= old_view.push(info@));
                    let nn = nv.map_values(|c: ClassInfoV| c.name);
                    assert(nn =~= old_names.push(info@.name));
                    assert forall|a: int, b: int| #![trigger nn[a], nn[b]] 0 <= a < b < nn.len() implies nn[a] != nn[b] by {
                        if b == old_names.len() {
                            assert(old_view[a].name == old_names[a]);
                            assert(old_names[a] != info@.name);
                        } else {
                            assert(nn[a] == old_names[a] && nn[b] == old_names[b]);
                        }
                    }
                }
                self.classes = v;
                assert(self@ =~= table_insert(old(self)@, info@));
            },
        }
    }

    pub fn contains(&self, name: &str) -> (r: bool)
        ensures
            r == self.name_seq().contains(name@),
    {
        let r = self.index_of(name);
        proof {
            lemma_class_index_from(self@, name@, 0);
            if r is Some {
                assert(self.name_seq()[r->0 as int] == name@);
            }
        }
        r.is_some()
    }

    pub fn get(&self, name: &str) -> (r: Option<&ClassInfo>)
        ensures
            match r {
                Some(c) => lookup_class(self@, name@) == Some(c@),
                None => lookup_class(self@, name@) is None,
            },
    {
        match self.index_of(name) {
            Some(i) => Some(&self.classes[i]),
            None => None,
        }
    }

    /// The names of the classes, in the order of the table.
    pub fn names(&self) -> (r: Vec<String>)
        ensures
            names_view(r@) == self.name_seq(),
            names_distinct(names_view(r@)),
    {
        proof {
            self.lemma_view();
            use_type_invariant(self);
        }
        let mut r: Vec<String> = Vec::new();
        let mut i: usize = 0;
        while i < self.classes.len()
            invariant
                i <= self.classes.len(),
                names_view(r@) == self.name_seq().take(i as int),
                self@.len() == self.classes@.len(),
                forall|k: int| 0 <= k < self@.len() ==> #[trigger] self@[k] == self.classes@[k]@,
            decreases self.classes.len() - i,
        {
            let ghost old_r = r@;
            let nm = self.classes[i].name.clone();
            r.push(nm);
            assert(names_view(r@) =~= names_view(old_r).push(self.classes@[i as int].name@));
            assert(self.name_seq()[i as int] == self.classes@[i as int].name@);
            assert(self.name_seq().take(i + 1) =~= self.name_seq().take(i as int).push(self.name_seq()[i as int]));
            i += 1;
            assert(names_view(r@) =~= self.name_seq().take(i as int));
        }
        assert(self.name_seq().take(i as int) =~= self.name_seq());
        r
    }

    /// The field `field_name` that class `class_name` declares or inherits.
    pub fn resolve_field(&self, class_name: &str, field_name: &str) -> (r: Option<&FieldInfo>)
        ensures
            match r {
                Some(f) => field_chain(self@, class_name@, field_name@, self@.len() + 1) == Some(f@),
                None => field_chain(self@, class_name@, field_name@, self@.len() + 1) is None,
            },
    {
        proof {
            self.lemma_view();
        }
        let mut cur = match self.index_of(class_name) {
            Some(i) => i,
            None => return None,
        };
        let mut fuel: usize = self.classes.len();
        loop
            invariant
                cur < self.classes.len(),
                fuel <= self.classes.len(),
                field_chain(self@, class_name@, field_name@, self@.len() + 1) == field_chain(
                    self@,
                    self@[cur as int].name,
                    field_name@,
                    fuel as nat + 1,
                ),
                class_index(self@, self@[cur as int].name) == Some(cur as nat),
                self@.len() == self.classes@.len(),
                forall|k: int| 0 <= k < self@.len() ==> #[trigger] self@[k] == self.classes@[k]@,
            decreases fuel,
        {
            let info = &self.classes[cur];
            if let Some(j) = field_pos(info, field_name) {
                return Some(&info.fields[j]);
            }
            match &info.superclass {
                None => return None,
                Some(s) => {
                    proof {
                        reveal_with_fuel(field_chain, 2);
                        reveal_with_fuel(method_chain, 2);
                        reveal_with_fuel(base_vis_chain, 2);
                    }
                    if fuel == 0 {
                        return None;
                    }
                    match self.index_of(s.as_str()) {
                        None => {
                            return None;
                        },
                        Some(k) => {
                            proof {
                                lemma_class_index_from(self@, s@, 0);
                            }
                            cur = k;
                            fuel -= 1;
                        },
                    }
                },
            }
        }
    }

    /// The method `method_name` that class `class_name` declares or inherits; an
    /// override in a subclass comes first.
    pub fn resolve_method(&self, class_name: &str, method_name: &str) -> (r: Option<&MethodSig>)
        ensures
            match r {
                Some(m) => method_chain(self@, class_name@, method_name@, self@.len() + 1) == Some(m@),
                None => method_chain(self@, class_name@, method_name@, self@.len() + 1) is None,
            },
    {
        proof {
            self.lemma_view();
        }
        let mut cur = match self.index_of(class_name) {
            Some(i) => i,
            None => return None,
        };
        let mut fuel: usize = self.classes.len();
        loop
            invariant
                cur < self.classes.len(),
                fuel <= self.classes.len(),
                method_chain(self@, class_name@, method_name@, self@.len() + 1) == method_chain(
                    self@,
                    self@[cur as int].name,
                    method_name@,
                    fuel as nat + 1,
                ),
                class_index(self@, self@[cur as int].name) == Some(cur as nat),
                self@.len() == self.classes@.len(),
                forall|k: int| 0 <= k < self@.len() ==> #[trigger] self@[k] == self.classes@[k]@,
            decreases fuel,
        {
            let info = &self.classes[cur];
            if let Some(j) = method_pos(info, method_name) {
                return Some(&info.methods[j]);
            }
            match &info.superclass {
                None => return None,
                Some(s) => {
                    proof {
                        reveal_with_fuel(field_chain, 2);
                        reveal_with_fuel(method_chain, 2);
                        reveal_with_fuel(base_vis_chain, 2);
                    }
                    if fuel == 0 {
                        return None;
                    }
                    match self.index_of(s.as_str()) {
                        None => {
                            return None;
                        },
                        Some(k) => {
                            proof {
                                lemma_class_index_from(self@, s@, 0);
                            }
                            cur = k;
                            fuel -= 1;
                        },
                    }
                },
            }
        }
    }

    /// The visibility of the first declaration of `method_name` along the chain of
    /// `class_name`: an override that omits `pub` keeps the visibility it overrides.
    pub fn resolve_method_base_visibility(&self, class_name: &str, method_name: &str) -> (r: Option<
        bool,
    >)
        ensures
            r == base_vis_chain(self@, class_name@, method_name@, self@.len() + 1, None),
    {
        proof {
            self.lemma_view();
        }
        let mut cur = match self.index_of(class_name) {
            Some(i) => i,
            None => return None,
        };
        let mut fuel: usize = self.classes.len();
        let mut base_pub: Option<bool> = None;
        loop
            invariant
                cur < self.classes.len(),
                fuel <= self.classes.len(),
                base_vis_chain(self@, class_name@, method_name@, self@.len() + 1, None)
                    == base_vis_chain(self@, self@[cur as int].name, method_name@, fuel as nat + 1, base_pub),
                class_index(self@, self@[cur as int].name) == Some(cur as nat),
                self@.len() == self.classes@.len(),
                forall|k: int| 0 <= k < self@.len() ==> #[trigger] self@[k] == self.classes@[k]@,
            decreases fuel,
        {
            let info = &self.classes[cur];
            if let Some(j) = method_pos(info, method_name) {
                base_pub = Some(info.methods[j].is_pub);
            }
            match &info.superclass {
                None => return base_pub,
                Some(s) => {
                    proof {
                        reveal_with_fuel(field_chain, 2);
                        reveal_with_fuel(method_chain, 2);
                        reveal_with_fuel(base_vis_chain, 2);
                    }
                    if fuel == 0 {
                        return None;
                    }
                    match self.index_of(s.as_str()) {
                        None => {
                            return None;
                        },
                        Some(k) => {
                            proof {
                                lemma_class_index_from(self@, s@, 0);
                            }
                            cur = k;
                            fuel -= 1;
                        },
                    }
                },
            }
        }
    }

    /// Whether `class_name` is `target` or a subclass of it.
    pub fn is_same_or_subclass(&self, class_name: &str, target: &str) -> (r: bool)
        ensures
            r == subclass_chain(self@, class_name@, target@, self@.len() + 1),
    {
        proof {
            self.lemma_view();
        }
        if text_eq(class_name, target) {
            return true;
        }
        let mut cur = match self.index_of(class_name) {
            Some(i) => i,
            None => return false,
        };
        let mut fuel: usize = self.classes.len();
        loop
            invariant
                cur < self.classes.len(),
                fuel <= self.classes.len(),
                subclass_chain(self@, class_name@, target@, self@.len() + 1) == subclass_chain(
                    self@,
                    self@[cur as int].name,
                    target@,
                    fuel as nat + 1,
                ),
                class_index(self@, self@[cur as int].name) == Some(cur as nat),
                self@.len() == self.classes@.len(),
                forall|k: int| 0 <= k < self@.len() ==> #[trigger] self@[k] == self.classes@[k]@,
                self@[cur as int].name != target@,
            decreases fuel,
        {
            let info = &self.classes[cur];
            match &info.superclass {
                None => return false,
                Some(s) => {
                    proof {
                        reveal_with_fuel(subclass_chain, 2);
                    }
                    if fuel == 0 {
                        return false;
                    }
                    if text_eq(s.as_str(), target) {
                        return true;
                    }
                    match self.index_of(s.as_str()) {
                        None => {
                            return false;
                        },
                        Some(k) => {
                            proof {
                                lemma_class_index_from(self@, s@, 0);
                            }
                            cur = k;
                            fuel -= 1;
                        },
                    }
                },
            }
        }
    }

    /// Whether the chain of superclasses above position `start` ends within as many
    /// steps as the table holds classes.
    fn chain_ends_at(&self, start: usize) -> (r: bool)
        requires
            start < self@.len(),
        ensures
            r == chain_ends(self@, self@[start as int].superclass, self@.len()),
    {
        proof {
            self.lemma_view();
        }
        let mut cur = start;
        let mut fuel: usize = self.classes.len();
        loop
            invariant
                cur < self.classes.len(),
                fuel <= self.classes.len(),
                chain_ends(self@, self@[start as int].superclass, self@.len()) == chain_ends(
                    self@,
                    self@[cur as int].superclass,
                    fuel as nat,
                ),
                self@.len() == self.classes@.len(),
                forall|k: int| 0 <= k < self@.len() ==> #[trigger] self@[k] == self.classes@[k]@,
            decreases fuel,
        {
            match &self.classes[cur].superclass {
                None => return true,
                Some(s) => {
                    if fuel == 0 {
                        return false;
                    }
                    match self.index_of(s.as_str()) {
                        None => return true,
                        Some(k) => {
                            cur = k;
                            fuel -= 1;
                        },
                    }
                },
            }
        }
    }

    /// The names met on the way up from position `start`, until a name comes back:
    /// `A -> B -> A`.
    fn cycle_path(&self, start: usize) -> (p: String)
        requires
            start < self@.len(),
        ensures
            p@ == self@[start as int].name + cycle_walk(self@, start as int, seq![self@[start as int].name], self@.len()),
    {
        proof {
            self.lemma_view();
        }
        let mut seen: Vec<String> = Vec::new();
        seen.push(self.classes[start].name.clone());
        let mut path = self.classes[start].name.clone();
        let mut cur = start;
        let mut budget: usize = self.classes.len();
        let ghost target = self@[start as int].name + cycle_walk(self@, start as int, seq![self@[start as int].name], self@.len());
        assert(names_view(seen@) =~= seq![self@[start as int].name]);
        loop
            invariant
                cur < self.classes.len(),
                self@.len() == self.classes@.len(),
                forall|i: int| 0 <= i < self@.len() ==> #[trigger] self@[i] == self.classes@[i]@,
                target == path@ + cycle_walk(self@, cur as int, names_view(seen@), budget as nat),
                start < self@.len(),
                target == self@[start as int].name + cycle_walk(
                    self@,
                    start as int,
                    seq![self@[start as int].name],
                    self@.len(),
                ),
            decreases budget,
        {
            match &self.classes[cur].superclass {
                None => {
                    assert(self@[cur as int].superclass is None);
                    assert(path@ + Seq::<char>::empty() =~= path@);
                    return path;
                },
                Some(s) => {
                    assert(self@[cur as int].superclass == Some(s@));
                    let ghost before = path@;
                    push_str(&mut path, " -> ");
                    push_str(&mut path, s.as_str());
                    let ghost rest = if names_view(seen@).contains(s@) {
                        Seq::<char>::empty()
                    } else {
                        match class_index(self@, s@) {
                            None => Seq::<char>::empty(),
                            Some(j) => if budget == 0 {
                                Seq::<char>::empty()
                            } else {
                                cycle_walk(self@, j as int, names_view(seen@).push(s@), (budget - 1) as nat)
                            },
                        }
                    };
                    assert(target == path@ + rest) by {
                        assert(before + (" -> "@ + s@ + rest) =~= before + " -> "@ + s@ + rest);
                    }
                    let mut k: usize = 0;
                    while k < seen.len()
                        invariant
                            k <= seen.len(),
                            forall|q: int| 0 <= q < k ==> (#[trigger] seen@[q])@ != s@,
                            target == path@ + rest,
                            names_view(seen@).contains(s@) ==> rest == Seq::<char>::empty(),
                            start < self@.len(),
                            target == self@[start as int].name + cycle_walk(
                                self@,
                                start as int,
                                seq![self@[start as int].name],
                                self@.len(),
                            ),
                        decreases seen.len() - k,
                    {
                        if text_eq(seen[k].as_str(), s.as_str()) {
                            proof {
                                assert(names_view(seen@)[k as int] == s@);
                                assert(path@ + Seq::<char>::empty() =~= path@);
                            }
                            return path;
                        }
                        k += 1;
                    }
                    assert(!names_view(seen@).contains(s@)) by {
                        if names_view(seen@).contains(s@) {
                            let q = choose|q: int| 0 <= q < names_view(seen@).len() && names_view(seen@)[q] == s@;
                            assert(seen@[q]@ == s@);
                        }
                    }
                    let ghost seen_before = names_view(seen@);
                    seen.push(s.clone());
                    assert(names_view(seen@) =~= seen_before.push(s@));
                    match self.index_of(s.as_str()) {
                        None => {
                            assert(path@ + Seq::<char>::empty() =~= path@);
                            return path;
                        },
                        Some(j) => {
                            cur = j;
                        },
                    }
                },
            }
            if budget == 0 {
                assert(path@ + Seq::<char>::empty() =~= path@);
                return path;
            }
            budget -= 1;
        }
    }

    /// Fails on the first class (in table order) whose chain of superclasses comes
    /// back to a class already on it, reporting that class's line.
    pub fn check_no_cycles(&self) -> (r: Result<(), SemaError>)
        ensures
            match r {
                Ok(()) => first_cyclic_from(self@, 0) is None,
                Err(e) => first_cyclic_from(self@, 0) matches Some(x) && e.agrees(x),
            },
    {
        let mut i: usize = 0;
        while i < self.classes.len()
            invariant
                i <= self.classes.len(),
                first_cyclic_from(self@, 0) == first_cyclic_from(self@, i as nat),
            decreases self.classes.len() - i,
        {
            if !self.chain_ends_at(i) {
                let mut message = text("클래스 상속 관계에 순환이 있습니다: ");
                push_str(&mut message, self.cycle_path(i).as_str());
                return Err(SemaError { message, line: self.classes[i].line });
            }
            i += 1;
        }
        Ok(())
    }
}

// ---------------------------------------------------------------------------
// Building the table from a program
// ---------------------------------------------------------------------------

/// The error of the first class declaration, at or after item `i`, whose name is
/// among `seen` or declared by an earlier item at or after `i`.
pub open spec fn dup_class_from(items: Seq<StmtV>, i: nat, seen: Seq<Seq<char>>) -> Option<SemaErrorV>
    decreases items.len() - i,
{
    if i >= items.len() {
        None
    } else {
        match items[i as int] {
            StmtV::ClassDecl(c) => if seen.contains(c.name) {
                Some(fail(c.line, "클래스 '"@ + c.name + "'가 중복 선언되었습니다"@))
            } else {
                dup_class_from(items, i + 1, seen.push(c.name))
            },
            _ => dup_class_from(items, i + 1, seen),
        }
    }
}

/// Without a class declared twice, the declarations have distinct names.
proof fn lemma_dup_distinct(items: Seq<StmtV>, i: nat, acc: Seq<ClassDeclV>)
    requires
        dup_class_from(items, i, decl_names(acc)) is None,
        names_distinct(decl_names(acc)),
    ensures
        names_distinct(decl_names(class_decls_from(items, i, acc))),
    decreases items.len() - i,
{
    if i < items.len() {
        match items[i as int] {
            StmtV::ClassDecl(c) => {
                let a2 = acc.push(c);
                assert(decl_names(a2) =~= decl_names(acc).push(c.name));
                assert forall|x: int, y: int| 0 <= x < y < decl_names(a2).len() implies decl_names(a2)[x] != decl_names(
                    a2,
                )[y] by {
                    if y == acc.len() {
                        assert(decl_names(acc)[x] == decl_names(a2)[x]);
                    }
                }
                lemma_dup_distinct(items, i + 1, a2);
            },
            _ => lemma_dup_distinct(items, i + 1, acc),
        }
    }
}

/// The class declarations among the items at or after `i`, after those in `acc`.
pub open spec fn class_decls_from(items: Seq<StmtV>, i: nat, acc: Seq<ClassDeclV>) -> Seq<ClassDeclV>
    decreases items.len() - i,
{
    if i >= items.len() {
        acc
    } else {
        match items[i as int] {
            StmtV::ClassDecl(c) => class_decls_from(items, i + 1, acc.push(c)),
            _ => class_decls_from(items, i + 1, acc),
        }
    }
}

/// The class declarations of a program, in order.
pub open spec fn class_decls(items: Seq<StmtV>) -> Seq<ClassDeclV> {
    class_decls_from(items, 0, Seq::empty())
}

pub open spec fn decl_names(d: Seq<ClassDeclV>) -> Seq<Seq<char>> {
    d.map_values(|c: ClassDeclV| c.name)
}

/// The error of the first class, at or after position `i`, whose superclass is not
/// among `names`.
pub open spec fn missing_super_from(d: Seq<ClassDeclV>, i: nat, names: Seq<Seq<char>>) -> Option<SemaErrorV>
    decreases d.len() - i,
{
    if i >= d.len() {
        None
    } else {
        match d[i as int].superclass {
            Some(s) => if !names.contains(s) {
                Some(fail(d[i as int].line, "클래스 '"@ + d[i as int].name + "'가 정의되지 않은 클래스 '"@ + s + "'를 상속합니다"@))
            } else {
                missing_super_from(d, i + 1, names)
            },
            None => missing_super_from(d, i + 1, names),
        }
    }
}

/// The error of the first class declared twice, else of the first class whose
/// superclass is not declared.
pub open spec fn superclass_refs_error(items: Seq<StmtV>) -> Option<SemaErrorV> {
    match dup_class_from(items, 0, Seq::empty()) {
        Some(l) => Some(l),
        None => missing_super_from(class_decls(items), 0, decl_names(class_decls(items))),
    }
}

/// The first position at or after `k` of a declaration named `n`.
pub open spec fn decl_index_from(d: Seq<ClassDeclV>, n: Seq<char>, k: nat) -> Option<nat>
    decreases d.len() - k,
{
    if k >= d.len() {
        None
    } else if d[k as int].name == n {
        Some(k)
    } else {
        decl_index_from(d, n, k + 1)
    }
}

/// Whether class `c` itself declares a field named `f`.
fn decl_has_field(c: &ClassDecl, f: &str) -> (r: bool)
    ensures
        r == class_view(*c).fields.map_values(|x: FieldDeclV| x.name).contains(f@),
{
    let ghost names = class_view(*c).fields.map_values(|x: FieldDeclV| x.name);
    let mut j: usize = 0;
    while j < c.fields.len()
        invariant
            j <= c.fields.len(),
            names == class_view(*c).fields.map_values(|x: FieldDeclV| x.name),
            forall|m: int| 0 <= m < j ==> #[trigger] c.fields@[m].name@ != f@,
        decreases c.fields.len() - j,
    {
        if text_eq(c.fields[j].name.as_str(), f) {
            assert(names[j as int] == f@);
            return true;
        }
        j += 1;
    }
    assert(!names.contains(f@)) by {
        if names.contains(f@) {
            let m = choose|m: int| 0 <= m < names.len() && names[m] == f@;
            assert(c.fields@[m].name@ == f@);
        }
    }
    false
}

/// Whether a class on the chain starting at `sup` declares a field named `f`.
pub open spec fn super_has_field(d: Seq<ClassDeclV>, sup: Option<Seq<char>>, f: Seq<char>, fuel: nat) -> bool
    decreases fuel,
{
    match sup {
        None => false,
        Some(s) => if fuel == 0 {
            false
        } else {
            match decl_index_from(d, s, 0) {
                None => false,
                Some(p) => d[p as int].fields.map_values(|x: FieldDeclV| x.name).contains(f)
                    || super_has_field(d, d[p as int].superclass, f, (fuel - 1) as nat),
            }
        },
    }
}

/// The resolved type of an annotation whose class names are known.
pub open spec fn resolved(names: Seq<Seq<char>>, t: TypeV) -> SemaTypeV {
    match resolve_type_spec(names, t) {
        Some(x) => x,
        None => nn(TyV::Void),
    }
}

/// The declared return type of a function: `void` when none is written.
pub open spec fn ret_type(names: Seq<Seq<char>>, r: Option<TypeV>) -> SemaTypeV {
    match r {
        Some(t) => resolved(names, t),
        None => nn(TyV::Void),
    }
}

pub open spec fn ret_ok(names: Seq<Seq<char>>, r: Option<TypeV>) -> bool {
    match r {
        Some(t) => resolve_type_spec(names, t) is Some,
        None => true,
    }
}

/// The message of the first parameter at or after position `i` whose type is unknown.
pub open spec fn unknown_param_msg(names: Seq<Seq<char>>, ps: Seq<ParamV>, i: nat) -> Seq<char>
    decreases ps.len() - i,
{
    if i >= ps.len() {
        Seq::empty()
    } else if resolve_type_spec(names, ps[i as int].ty) is None {
        unknown_type_msg(ps[i as int].ty)
    } else {
        unknown_param_msg(names, ps, i + 1)
    }
}

pub open spec fn params_ok(names: Seq<Seq<char>>, ps: Seq<ParamV>) -> bool {
    forall|i: int| 0 <= i < ps.len() ==> (#[trigger] resolve_type_spec(names, ps[i].ty)) is Some
}

/// The error of the first field, at or after position `j` of class `c`, that is
/// declared twice in `c`, already declared by an ancestor, or of an unknown type.
pub open spec fn field_error(d: Seq<ClassDeclV>, c: ClassDeclV, j: nat, names: Seq<Seq<char>>) -> Option<SemaErrorV>
    decreases c.fields.len() - j,
{
    if j >= c.fields.len() {
        None
    } else {
        let f = c.fields[j as int];
        if c.fields.take(j as int).map_values(|x: FieldDeclV| x.name).contains(f.name) {
            Some(fail(f.line, "필드 '"@ + f.name + "'가 클래스 '"@ + c.name + "'에 중복 선언되었습니다"@))
        } else if super_has_field(d, c.superclass, f.name, d.len()) {
            Some(fail(f.line, "필드 '"@ + f.name + "'가 상위 클래스에 이미 선언되어 있어 재선언할 수 없습니다"@))
        } else if resolve_type_spec(names, f.ty) is None {
            Some(fail(f.line, unknown_type_msg(f.ty)))
        } else {
            field_error(d, c, j + 1, names)
        }
    }
}

/// The error of the first method, at or after position `j` of class `c`, that is
/// declared twice in `c` or names an unknown type.
pub open spec fn method_error(c: ClassDeclV, j: nat, names: Seq<Seq<char>>) -> Option<SemaErrorV>
    decreases c.methods.len() - j,
{
    if j >= c.methods.len() {
        None
    } else {
        let m = c.methods[j as int];
        if c.methods.take(j as int).map_values(|x: FuncDeclV| x.name).contains(m.name) {
            Some(fail(m.line, "메서드 '"@ + m.name + "'가 클래스 '"@ + c.name + "'에 중복 선언되었습니다"@))
        } else if !params_ok(names, m.params) {
            Some(fail(m.line, unknown_param_msg(names, m.params, 0)))
        } else if !ret_ok(names, m.ret_ty) {
            Some(fail(m.line, unknown_type_msg(m.ret_ty->Some_0)))
        } else {
            method_error(c, j + 1, names)
        }
    }
}

/// The error of class `k` itself, its fields before its methods.
pub open spec fn own_error(d: Seq<ClassDeclV>, k: nat) -> Option<SemaErrorV> {
    let names = decl_names(d);
    match field_error(d, d[k as int], 0, names) {
        Some(l) => Some(l),
        None => method_error(d[k as int], 0, names),
    }
}

/// The error met when class `k` is filled in: ancestors are filled first, the
/// topmost first.
pub open spec fn chain_error(d: Seq<ClassDeclV>, k: nat, fuel: nat) -> Option<SemaErrorV>
    decreases fuel,
{
    let up = match d[k as int].superclass {
        Some(s) => if fuel == 0 {
            None
        } else {
            match decl_index_from(d, s, 0) {
                Some(p) => chain_error(d, p, (fuel - 1) as nat),
                None => None,
            }
        },
        None => None,
    };
    match up {
        Some(l) => Some(l),
        None => own_error(d, k),
    }
}

/// The first error met when the classes at or after position `k` are filled in.
pub open spec fn fill_error_from(d: Seq<ClassDeclV>, k: nat) -> Option<SemaErrorV>
    decreases d.len() - k,
{
    if k >= d.len() {
        None
    } else {
        match chain_error(d, k, d.len()) {
            Some(l) => Some(l),
            None => fill_error_from(d, k + 1),
        }
    }
}

pub open spec fn field_info_spec(names: Seq<Seq<char>>, owner: Seq<char>, f: FieldDeclV) -> FieldInfoV {
    FieldInfoV { name: f.name, ty: resolved(names, f.ty), is_pub: f.is_pub, owner }
}

pub open spec fn method_sig_spec(names: Seq<Seq<char>>, owner: Seq<char>, m: FuncDeclV) -> MethodSigV {
    MethodSigV {
        name: m.name,
        has_self: m.has_self,
        is_pub: m.is_pub,
        param_names: m.params.map_values(|p: ParamV| p.name),
        param_types: m.params.map_values(|p: ParamV| resolved(names, p.ty)),
        ret: ret_type(names, m.ret_ty),
        owner,
    }
}

/// The entry of a class in the finished table.
pub open spec fn class_info_spec(names: Seq<Seq<char>>, c: ClassDeclV) -> ClassInfoV {
    ClassInfoV {
        name: c.name,
        superclass: c.superclass,
        fields: c.fields.map_values(|f: FieldDeclV| field_info_spec(names, c.name, f)),
        methods: c.methods.map_values(|m: FuncDeclV| method_sig_spec(names, c.name, m)),
        line: c.line,
    }
}

/// The entry of a class before its members are filled in.
pub open spec fn skeleton_spec(c: ClassDeclV) -> ClassInfoV {
    ClassInfoV { name: c.name, superclass: c.superclass, fields: Seq::empty(), methods: Seq::empty(), line: c.line }
}

/// The class table of a program, or its first error: a class declared
/// twice or inheriting an undeclared class, an inheritance cycle, then a bad member.
pub open spec fn class_table_spec(items: Seq<StmtV>) -> Result<Seq<ClassInfoV>, SemaErrorV> {
    let d = class_decls(items);
    match superclass_refs_error(items) {
        Some(l) => Err(l),
        None => match first_cyclic_from(d.map_values(|c: ClassDeclV| skeleton_spec(c)), 0) {
            Some(l) => Err(l),
            None => match fill_error_from(d, 0) {
                Some(l) => Err(l),
                None => Ok(d.map_values(|c: ClassDeclV| class_info_spec(decl_names(d), c))),
            },
        },
    }
}

/// Whether two tables agree, position by position, on each class's name and superclass.
pub open spec fn same_shape(a: Seq<ClassInfoV>, b: Seq<ClassInfoV>) -> bool {
    &&& a.len() == b.len()
    &&& forall|i: int| #![trigger a[i]] 0 <= i < a.len() ==> a[i].name == b[i].name && a[i].superclass == b[i].superclass
}

proof fn lemma_index_same_shape(a: Seq<ClassInfoV>, b: Seq<ClassInfoV>, n: Seq<char>, i: nat)
    requires
        same_shape(a, b),
    ensures
        class_index_from(a, n, i) == class_index_from(b, n, i),
    decreases a.len() - i,
{
    if i < a.len() {
        assert(a[i as int].name == b[i as int].name);
        lemma_index_same_shape(a, b, n, i + 1);
    }
}

proof fn lemma_chain_ends_same_shape(a: Seq<ClassInfoV>, b: Seq<ClassInfoV>, sup: Option<Seq<char>>, fuel: nat)
    requires
        same_shape(a, b),
    ensures
        chain_ends(a, sup, fuel) == chain_ends(b, sup, fuel),
    decreases fuel,
{
    if let Some(n) = sup {
        if fuel > 0 {
            lemma_index_same_shape(a, b, n, 0);
            if let Some(j) = class_index(a, n) {
                lemma_class_index_from_bound(a, n, 0);
                assert(a[j as int].superclass == b[j as int].superclass);
                lemma_chain_ends_same_shape(a, b, a[j as int].superclass, (fuel - 1) as nat);
            }
        }
    }
}

proof fn lemma_class_index_from_bound(a: Seq<ClassInfoV>, n: Seq<char>, i: nat)
    ensures
        class_index_from(a, n, i) matches Some(j) ==> j < a.len(),
    decreases a.len() - i,
{
    if i < a.len() && a[i as int].name != n {
        lemma_class_index_from_bound(a, n, i + 1);
    }
}

proof fn lemma_first_cyclic_same_shape(a: Seq<ClassInfoV>, b: Seq<ClassInfoV>, i: nat)
    requires
        same_shape(a, b),
    ensures
        first_cyclic_from(a, i) is None <==> first_cyclic_from(b, i) is None,
    decreases a.len() - i,
{
    if i < a.len() {
        assert(a[i as int].superclass == b[i as int].superclass);
        lemma_chain_ends_same_shape(a, b, a[i as int].superclass, a.len());
        lemma_first_cyclic_same_shape(a, b, i + 1);
    }
}

/// A class table that is built has no inheritance cycle: checking it for cycles
/// finds none.
pub proof fn lemma_built_table_acyclic(items: Seq<StmtV>)
    requires
        class_table_spec(items) is Ok,
    ensures
        first_cyclic_from(class_table_spec(items)->Ok_0, 0) is None,
{
    let d = class_decls(items);
    let sk = d.map_values(|c: ClassDeclV| skeleton_spec(c));
    let cs = d.map_values(|c: ClassDeclV| class_info_spec(decl_names(d), c));
    assert(same_shape(sk, cs));
    lemma_first_cyclic_same_shape(sk, cs, 0);
}

pub open spec fn decls_view(v: Seq<&ClassDecl>) -> Seq<ClassDeclV> {
    v.map_values(|c: &ClassDecl| class_view(*c))
}

/// Whether `names` holds `name`.
fn contains_name(names: &Vec<String>, name: &str) -> (r: bool)
    ensures
        r == names_view(names@).contains(name@),
{
    let mut k: usize = 0;
    while k < names.len()
        invariant
            k <= names.len(),
            forall|m: int| 0 <= m < k ==> names_view(names@)[m] != name@,
        decreases names.len() - k,
    {
        if text_eq(names[k].as_str(), name) {
            assert(names_view(names@)[k as int] == name@);
            return true;
        }
        k += 1;
    }
    false
}

/// The class declarations of a program, in order.
fn collect_class_decls(program: &Program) -> (r: Vec<&ClassDecl>)
    ensures
        decls_view(r@) == class_decls(program_view(*program)),
{
    let ghost items = program_view(*program);
    proof {
        lemma_stmts_view(program.items@);
    }
    let mut r: Vec<&ClassDecl> = Vec::new();
    let mut i: usize = 0;
    assert(decls_view(r@) =~= Seq::<ClassDeclV>::empty());
    while i < program.items.len()
        invariant
            i <= program.items.len(),
            items == program_view(*program),
            items.len() == program.items.len(),
            forall|k: int| 0 <= k < items.len() ==> #[trigger] items[k] == stmt_view(program.items@[k]),
            class_decls(items) == class_decls_from(items, i as nat, decls_view(r@)),
        decreases program.items.len() - i,
    {
        if let Stmt::ClassDecl(c) = &program.items[i] {
            let ghost before = r@;
            r.push(c);
            assert(decls_view(r@) =~= decls_view(before).push(class_view(*c)));
        }
        i += 1;
    }
    r
}

/// Checks class names before any member type is resolved: no class is declared
/// twice, and every superclass is declared.
pub fn validate_superclass_refs(program: &Program) -> (r: Result<(), SemaError>)
    ensures
        match r {
            Ok(()) => superclass_refs_error(program_view(*program)) is None,
            Err(e) => (superclass_refs_error(program_view(*program))) matches Some(x) && e.agrees(x),
        },
{
    let ghost items = program_view(*program);
    proof {
        lemma_stmts_view(program.items@);
    }
    let mut names: Vec<String> = Vec::new();
    let mut i: usize = 0;
    assert(names_view(names@) =~= Seq::empty());
    while i < program.items.len()
        invariant
            i <= program.items.len(),
            items == program_view(*program),
            items.len() == program.items.len(),
            forall|k: int| 0 <= k < items.len() ==> #[trigger] items[k] == stmt_view(program.items@[k]),
            dup_class_from(items, 0, Seq::empty()) == dup_class_from(items, i as nat, names_view(names@)),
        decreases program.items.len() - i,
    {
        if let Stmt::ClassDecl(c) = &program.items[i] {
            if contains_name(&names, c.name.as_str()) {
                let mut message = text("클래스 '");
                push_str(&mut message, c.name.as_str());
                push_str(&mut message, "'가 중복 선언되었습니다");
                return Err(SemaError { message, line: c.line });
            }
            let ghost before = names@;
            names.push(c.name.clone());
            assert(names_view(names@) =~= names_view(before).push(c.name@));
        }
        i += 1;
    }
    let decls = collect_class_decls(program);
    let ghost d = decls_view(decls@);
    let mut all: Vec<String> = Vec::new();
    let mut k: usize = 0;
    while k < decls.len()
        invariant
            k <= decls.len(),
            d == decls_view(decls@),
            names_view(all@) == decl_names(d).take(k as int),
            d == class_decls(items),
            items == program_view(*program),
            dup_class_from(items, 0, Seq::empty()) is None,
        decreases decls.len() - k,
    {
        let ghost before = all@;
        all.push(decls[k].name.clone());
        assert(names_view(all@) =~= names_view(before).push(decls[k as int].name@));
        assert(decl_names(d).take(k + 1) =~= decl_names(d).take(k as int).push(decl_names(d)[k as int]));
        k += 1;
    }
    assert(decl_names(d).take(k as int) =~= decl_names(d));
    let mut k: usize = 0;
    while k < decls.len()
        invariant
            k <= decls.len(),
            d == decls_view(decls@),
            names_view(all@) == decl_names(d),
            d == class_decls(items),
            items == program_view(*program),
            dup_class_from(items, 0, Seq::empty()) is None,
            missing_super_from(d, 0, decl_names(d)) == missing_super_from(d, k as nat, decl_names(d)),
        decreases decls.len() - k,
    {
        let c = decls[k];
        if let Some(sup) = &c.superclass {
            if !contains_name(&all, sup.as_str()) {
                let mut message = text("클래스 '");
                push_str(&mut message, c.name.as_str());
                push_str(&mut message, "'가 정의되지 않은 클래스 '");
                push_str(&mut message, sup.as_str());
                push_str(&mut message, "'를 상속합니다");
                return Err(SemaError { message, line: c.line });
            }
        }
        k += 1;
    }
    Ok(())
}

/// The position of the declaration named `name`.
fn decl_pos(decls: &Vec<&ClassDecl>, name: &str) -> (r: Option<usize>)
    ensures
        match r {
            Some(p) => decl_index_from(decls_view(decls@), name@, 0) == Some(p as nat) && p < decls.len(),
            None => decl_index_from(decls_view(decls@), name@, 0) is None,
        },
{
    let mut k: usize = 0;
    while k < decls.len()
        invariant
            k <= decls.len(),
            decl_index_from(decls_view(decls@), name@, 0) == decl_index_from(decls_view(decls@), name@, k as nat),
        decreases decls.len() - k,
    {
        if text_eq(decls[k].name.as_str(), name) {
            return Some(k);
        }
        k += 1;
    }
    None
}

/// Whether a class on the chain starting at `sup` declares a field named `f`.
fn super_has_field_exec(decls: &Vec<&ClassDecl>, sup: &Option<String>, f: &str, fuel: usize) -> (r: bool)
    ensures
        r == super_has_field(decls_view(decls@), opt_str_view(*sup), f@, fuel as nat),
    decreases fuel,
{
    match sup {
        None => false,
        Some(s) => {
            if fuel == 0 {
                return false;
            }
            match decl_pos(decls, s.as_str()) {
                None => false,
                Some(p) => {
                    let c = decls[p];
                    if decl_has_field(c, f) {
                        return true;
                    }
                    super_has_field_exec(decls, &c.superclass, f, fuel - 1)
                },
            }
        },
    }
}

fn copy_name(s: &Option<String>) -> (r: Option<String>)
    ensures
        opt_str_view(r) == opt_str_view(*s),
{
    match s {
        Some(x) => Some(x.clone()),
        None => None,
    }
}

/// Whether a field before position `j` of class `c` is named `name`.
fn earlier_field(c: &ClassDecl, j: usize, name: &str) -> (r: bool)
    requires
        j <= c.fields.len(),
    ensures
        r == class_view(*c).fields.take(j as int).map_values(|x: FieldDeclV| x.name).contains(name@),
{
    let ghost names = class_view(*c).fields.take(j as int).map_values(|x: FieldDeclV| x.name);
    let mut m: usize = 0;
    while m < j
        invariant
            m <= j <= c.fields.len(),
            names == class_view(*c).fields.take(j as int).map_values(|x: FieldDeclV| x.name),
            forall|q: int| 0 <= q < m ==> #[trigger] c.fields@[q].name@ != name@,
        decreases j - m,
    {
        if text_eq(c.fields[m].name.as_str(), name) {
            assert(names[m as int] == name@);
            return true;
        }
        m += 1;
    }
    assert(!names.contains(name@)) by {
        if names.contains(name@) {
            let q = choose|q: int| 0 <= q < names.len() && names[q] == name@;
            assert(c.fields@[q].name@ == name@);
        }
    }
    false
}

/// Whether a method before position `j` of class `c` is named `name`.
fn earlier_method(c: &ClassDecl, j: usize, name: &str) -> (r: bool)
    requires
        j <= c.methods.len(),
    ensures
        r == class_view(*c).methods.take(j as int).map_values(|x: FuncDeclV| x.name).contains(name@),
{
    proof {
        lemma_funcs_view(c.methods@);
    }
    let ghost names = class_view(*c).methods.take(j as int).map_values(|x: FuncDeclV| x.name);
    let mut m: usize = 0;
    while m < j
        invariant
            m <= j <= c.methods.len(),
            names == class_view(*c).methods.take(j as int).map_values(|x: FuncDeclV| x.name),
            funcs_view(c.methods@).len() == c.methods.len(),
            forall|i: int| 0 <= i < c.methods.len() ==> #[trigger] funcs_view(c.methods@)[i] == func_view(c.methods@[i]),
            forall|q: int| 0 <= q < m ==> #[trigger] c.methods@[q].name@ != name@,
        decreases j - m,
    {
        if text_eq(c.methods[m].name.as_str(), name) {
            assert(names[m as int] == name@);
            return true;
        }
        m += 1;
    }
    assert(!names.contains(name@)) by {
        if names.contains(name@) {
            let q = choose|q: int| 0 <= q < names.len() && names[q] == name@;
            assert(c.methods@[q].name@ == name@);
        }
    }
    false
}

/// The fields of class `decls[k]` with their types resolved.
fn fill_fields(decls: &Vec<&ClassDecl>, k: usize, table: &ClassTable) -> (r: Result<Vec<FieldInfo>, SemaError>)
    requires
        k < decls.len(),
        table.name_seq() == decl_names(decls_view(decls@)),
    ensures
        ({
            let d = decls_view(decls@);
            let names = decl_names(d);
            match r {
                Ok(v) => field_error(d, d[k as int], 0, names) is None && v@.map_values(|f: FieldInfo| f@)
                    == d[k as int].fields.map_values(|f: FieldDeclV| field_info_spec(names, d[k as int].name, f)),
                Err(e) => (field_error(d, d[k as int], 0, names)) matches Some(x) && e.agrees(x),
            }
        }),
{
    let ghost d = decls_view(decls@);
    let ghost names = decl_names(d);
    let c = decls[k];
    let ghost cv = class_view(*c);
    assert(cv == d[k as int]);
    let mut v: Vec<FieldInfo> = Vec::new();
    let mut j: usize = 0;
    assert(v@.map_values(|f: FieldInfo| f@) =~= cv.fields.take(0).map_values(|f: FieldDeclV| field_info_spec(names, cv.name, f)));
    while j < c.fields.len()
        invariant
            j <= c.fields.len(),
            d == decls_view(decls@),
            names == decl_names(d),
            cv == class_view(*c),
            cv == d[k as int],
            k < decls.len(),
            table.name_seq() == names,
            field_error(d, cv, 0, names) == field_error(d, cv, j as nat, names),
            v@.map_values(|f: FieldInfo| f@) == cv.fields.take(j as int).map_values(
                |f: FieldDeclV| field_info_spec(names, cv.name, f),
            ),
        decreases c.fields.len() - j,
    {
        let f: &FieldDecl = &c.fields[j];
        if earlier_field(c, j, f.name.as_str()) {
            let mut message = text("필드 '");
            push_str(&mut message, f.name.as_str());
            push_str(&mut message, "'가 클래스 '");
            push_str(&mut message, c.name.as_str());
            push_str(&mut message, "'에 중복 선언되었습니다");
            return Err(SemaError { message, line: f.line });
        }
        if super_has_field_exec(decls, &c.superclass, f.name.as_str(), decls.len()) {
            let mut message = text("필드 '");
            push_str(&mut message, f.name.as_str());
            push_str(&mut message, "'가 상위 클래스에 이미 선언되어 있어 재선언할 수 없습니다");
            return Err(SemaError { message, line: f.line });
        }
        let ty = resolve_type(&f.ty, table, f.line)?;
        let ghost before = v@;
        v.push(FieldInfo { name: f.name.clone(), ty, is_pub: f.is_pub, owner: c.name.clone() });
        assert(v@.map_values(|f: FieldInfo| f@) =~= before.map_values(|f: FieldInfo| f@).push(
            field_info_spec(names, cv.name, cv.fields[j as int]),
        ));
        assert(cv.fields.take(j + 1) =~= cv.fields.take(j as int).push(cv.fields[j as int]));
        j += 1;
    }
    assert(cv.fields.take(j as int) =~= cv.fields);
    Ok(v)
}

/// The parameter names and types of a method or function, its types resolved;
/// an unknown type is reported at `line`.
pub fn resolve_params(f: &FuncDecl, table: &ClassTable, line: usize) -> (r: Result<(Vec<String>, Vec<SemaType>), SemaError>)
    ensures
        match r {
            Ok((ns, ts)) => params_ok(table.name_seq(), func_view(*f).params) && names_view(ns@)
                == func_view(*f).params.map_values(|p: ParamV| p.name) && types_view(ts@) == func_view(
                *f,
            ).params.map_values(|p: ParamV| resolved(table.name_seq(), p.ty)),
            Err(e) => !params_ok(table.name_seq(), func_view(*f).params) && e.line == line
                && e.message@ == unknown_param_msg(table.name_seq(), func_view(*f).params, 0),
        },
{
    let ghost ps = func_view(*f).params;
    let ghost names = table.name_seq();
    let mut ns: Vec<String> = Vec::new();
    let mut ts: Vec<SemaType> = Vec::new();
    let mut i: usize = 0;
    assert(names_view(ns@) =~= ps.take(0).map_values(|p: ParamV| p.name));
    assert(types_view(ts@) =~= ps.take(0).map_values(|p: ParamV| resolved(names, p.ty)));
    while i < f.params.len()
        invariant
            i <= f.params.len(),
            ps == func_view(*f).params,
            ps.len() == f.params.len(),
            names == table.name_seq(),
            forall|q: int| 0 <= q < i ==> (#[trigger] resolve_type_spec(names, ps[q].ty)) is Some,
            unknown_param_msg(names, ps, 0) == unknown_param_msg(names, ps, i as nat),
            names_view(ns@) == ps.take(i as int).map_values(|p: ParamV| p.name),
            types_view(ts@) == ps.take(i as int).map_values(|p: ParamV| resolved(names, p.ty)),
        decreases f.params.len() - i,
    {
        let p = &f.params[i];
        assert(ps[i as int] == param_view(*p));
        let t = match resolve_type(&p.ty, table, line) {
            Ok(t) => t,
            Err(e) => {
                assert(resolve_type_spec(names, ps[i as int].ty) is None);
                return Err(e);
            },
        };
        let ghost nb = ns@;
        let ghost tb = ts@;
        ns.push(p.name.clone());
        ts.push(t);
        assert(names_view(ns@) =~= names_view(nb).push(ps[i as int].name));
        assert(types_view(ts@) =~= types_view(tb).push(resolved(names, ps[i as int].ty)));
        assert(ps.take(i + 1) =~= ps.take(i as int).push(ps[i as int]));
        i += 1;
    }
    assert(ps.take(i as int) =~= ps);
    Ok((ns, ts))
}

/// The declared return type of a method or function, `void` when none is written;
/// an unknown type is reported at `line`.
pub fn resolve_ret(f: &FuncDecl, table: &ClassTable, line: usize) -> (r: Result<SemaType, SemaError>)
    ensures
        match r {
            Ok(t) => ret_ok(table.name_seq(), func_view(*f).ret_ty) && t@ == ret_type(table.name_seq(), func_view(*f).ret_ty),
            Err(e) => !ret_ok(table.name_seq(), func_view(*f).ret_ty) && e.line == line
                && e.message@ == unknown_type_msg(func_view(*f).ret_ty->Some_0),
        },
{
    match &f.ret_ty {
        Some(t) => resolve_type(t, table, line),
        None => Ok(SemaType::non_null(Ty::Void)),
    }
}

/// The methods of class `decls[k]` with their signatures resolved.
fn fill_methods(decls: &Vec<&ClassDecl>, k: usize, table: &ClassTable) -> (r: Result<Vec<MethodSig>, SemaError>)
    requires
        k < decls.len(),
        table.name_seq() == decl_names(decls_view(decls@)),
    ensures
        ({
            let d = decls_view(decls@);
            let names = decl_names(d);
            match r {
                Ok(v) => method_error(d[k as int], 0, names) is None && v@.map_values(|m: MethodSig| m@)
                    == d[k as int].methods.map_values(|m: FuncDeclV| method_sig_spec(names, d[k as int].name, m)),
                Err(e) => (method_error(d[k as int], 0, names)) matches Some(x) && e.agrees(x),
            }
        }),
{
    let ghost d = decls_view(decls@);
    let ghost names = decl_names(d);
    let c = decls[k];
    let ghost cv = class_view(*c);
    assert(cv == d[k as int]);
    proof {
        lemma_funcs_view(c.methods@);
    }
    let mut v: Vec<MethodSig> = Vec::new();
    let mut j: usize = 0;
    assert(v@.map_values(|m: MethodSig| m@) =~= cv.methods.take(0).map_values(|m: FuncDeclV| method_sig_spec(names, cv.name, m)));
    while j < c.methods.len()
        invariant
            j <= c.methods.len(),
            d == decls_view(decls@),
            names == decl_names(d),
            cv == class_view(*c),
            cv == d[k as int],
            k < decls.len(),
            cv.methods.len() == c.methods.len(),
            forall|i: int| 0 <= i < c.methods.len() ==> #[trigger] cv.methods[i] == func_view(c.methods@[i]),
            table.name_seq() == names,
            method_error(cv, 0, names) == method_error(cv, j as nat, names),
            v@.map_values(|m: MethodSig| m@) == cv.methods.take(j as int).map_values(
                |m: FuncDeclV| method_sig_spec(names, cv.name, m),
            ),
        decreases c.methods.len() - j,
    {
        let m: &FuncDecl = &c.methods[j];
        if earlier_method(c, j, m.name.as_str()) {
            let mut message = text("메서드 '");
            push_str(&mut message, m.name.as_str());
            push_str(&mut message, "'가 클래스 '");
            push_str(&mut message, c.name.as_str());
            push_str(&mut message, "'에 중복 선언되었습니다");
            return Err(SemaError { message, line: m.line });
        }
        let (param_names, param_types) = resolve_params(m, table, m.line)?;
        let ret = resolve_ret(m, table, m.line)?;
        let ghost before = v@;
        v.push(
            MethodSig {
                name: m.name.clone(),
                has_self: m.has_self,
                is_pub: m.is_pub,
                param_names,
                param_types,
                ret,
                owner: c.name.clone(),
            },
        );
        assert(v@.map_values(|m: MethodSig| m@) =~= before.map_values(|m: MethodSig| m@).push(
            method_sig_spec(names, cv.name, cv.methods[j as int]),
        ));
        assert(cv.methods.take(j + 1) =~= cv.methods.take(j as int).push(cv.methods[j as int]));
        j += 1;
    }
    assert(cv.methods.take(j as int) =~= cv.methods);
    Ok(v)
}

/// Fills in class `decls[k]`, its ancestors first (up to `fuel` of them).
fn fill_class(decls: &Vec<&ClassDecl>, k: usize, fuel: usize, table: &ClassTable) -> (r: Result<ClassInfo, SemaError>)
    requires
        k < decls.len(),
        table.name_seq() == decl_names(decls_view(decls@)),
    ensures
        ({
            let d = decls_view(decls@);
            match r {
                Ok(info) => chain_error(d, k as nat, fuel as nat) is None && info@ == class_info_spec(decl_names(d), d[k as int]),
                Err(e) => (chain_error(d, k as nat, fuel as nat)) matches Some(x) && e.agrees(x),
            }
        }),
    decreases fuel,
{
    let c = decls[k];
    if let Some(sup) = &c.superclass {
        if fuel > 0 {
            if let Some(p) = decl_pos(decls, sup.as_str()) {
                fill_class(decls, p, fuel - 1, table)?;
            }
        }
    }
    let fields = fill_fields(decls, k, table)?;
    let methods = fill_methods(decls, k, table)?;
    let info = ClassInfo { name: c.name.clone(), superclass: copy_name(&c.superclass), fields, methods, line: c.line };
    Ok(info)
}

/// Builds the complete class table from the program's class declarations: names
/// first (duplicates, undeclared superclasses), then inheritance cycles, then each
/// class's members, superclasses before subclasses.
pub fn build_class_table(program: &Program) -> (r: Result<ClassTable, SemaError>)
    ensures
        match r {
            Ok(t) => class_table_spec(program_view(*program)) == Ok::<Seq<ClassInfoV>, SemaErrorV>(t@) && names_distinct(t.name_seq()),
            Err(e) => class_table_spec(program_view(*program)) matches Err(x) && e.agrees(x),
        },
{
    validate_superclass_refs(program)?;
    let decls = collect_class_decls(program);
    let ghost d = decls_view(decls@);
    let ghost items = program_view(*program);
    proof {
        assert(decl_names(Seq::<ClassDeclV>::empty()) =~= Seq::<Seq<char>>::empty());
        lemma_dup_distinct(items, 0, Seq::empty());
    }
    let mut skv: Vec<ClassInfo> = Vec::new();
    let mut k: usize = 0;
    while k < decls.len()
        invariant
            k <= decls.len(),
            d == decls_view(decls@),
            skv@.map_values(|c: ClassInfo| c@) == d.take(k as int).map_values(|c: ClassDeclV| skeleton_spec(c)),
            names_distinct(decl_names(d)),
        decreases decls.len() - k,
    {
        let c = decls[k];
        let ghost before = skv@.map_values(|c: ClassInfo| c@);
        let info = ClassInfo { name: c.name.clone(), superclass: copy_name(&c.superclass), fields: Vec::new(), methods: Vec::new(), line: c.line };
        assert(info@.fields =~= Seq::<FieldInfoV>::empty());
        assert(info@.methods =~= Seq::<MethodSigV>::empty());
        assert(info@ == skeleton_spec(d[k as int]));
        skv.push(info);
        assert(skv@.map_values(|c: ClassInfo| c@) =~= before.push(skeleton_spec(d[k as int])));
        assert(d.take(k + 1) =~= d.take(k as int).push(d[k as int]));
        k += 1;
    }
    assert(d.take(k as int) =~= d);
    proof {
        assert(skv@.map_values(|c: ClassInfo| c@).map_values(|c: ClassInfoV| c.name) =~= decl_names(d));
    }
    let skel = ClassTable { classes: skv };
    assert(skel@ =~= d.map_values(|c: ClassDeclV| skeleton_spec(c)));
    skel.check_no_cycles()?;
    assert(skel.name_seq() =~= decl_names(d));
    let mut infos: Vec<ClassInfo> = Vec::new();
    let mut k: usize = 0;
    assert(infos@.map_values(|c: ClassInfo| c@) =~= d.take(0).map_values(|c: ClassDeclV| class_info_spec(decl_names(d), c)));
    while k < decls.len()
        invariant
            k <= decls.len(),
            d == decls_view(decls@),
            skel.name_seq() == decl_names(d),
            d == class_decls(items),
            items == program_view(*program),
            superclass_refs_error(items) is None,
            first_cyclic_from(d.map_values(|c: ClassDeclV| skeleton_spec(c)), 0) is None,
            fill_error_from(d, 0) == fill_error_from(d, k as nat),
            infos@.map_values(|c: ClassInfo| c@) == d.take(k as int).map_values(
                |c: ClassDeclV| class_info_spec(decl_names(d), c),
            ),
        decreases decls.len() - k,
    {
        let info = fill_class(&decls, k, decls.len(), &skel)?;
        let ghost before = infos@;
        infos.push(info);
        assert(infos@.map_values(|c: ClassInfo| c@) =~= before.map_values(|c: ClassInfo| c@).push(
            class_info_spec(decl_names(d), d[k as int]),
        ));
        assert(d.take(k + 1) =~= d.take(k as int).push(d[k as int]));
        k += 1;
    }
    assert(d.take(k as int) =~= d);
    proof {
        assert(infos@.map_values(|c: ClassInfo| c@).map_values(|c: ClassInfoV| c.name) =~= decl_names(d));
    }
    let t = ClassTable { classes: infos };
    assert(t@ =~= d.map_values(|c: ClassDeclV| class_info_spec(decl_names(d), c)));
    Ok(t)
}

} // verus!
