use inkwell::context::Context;
use javagxc::codegen;
use javagxc::codegen::env::CgEnv;
use javagxc::codegen::types::{sema_ty_to_llvm, str_struct_type};
use javagxc::sema::class_table::ClassTable;
use javagxc::sema::types::{SemaType, Ty};
use javagxc::lexer::Lexer;
use javagxc::parser::Parser;
use javagxc::sema;

/// Compiles `src` and returns the module's IR, after LLVM's own check of it.
fn compile_ir(src: &str) -> String {
    let tokens = Lexer::new(src).tokenize().expect("lex failed");
    let program = Parser::new(tokens).parse_program().expect("parse failed");
    let (classes, funcs) = sema::analyze(&program).expect("sema failed");
    let context = Context::create();
    let cg = codegen::compile(&context, "test_module", &program, &classes, &funcs)
        .unwrap_or_else(|e| panic!("codegen failed: {}", e.to_string()));
    if let Some(report) = cg.verify() {
        panic!("LLVM rejected the module: {report}\n{}", cg.ir_text());
    }
    cg.ir_text()
}

fn compile_expect_err(src: &str) -> String {
    let tokens = Lexer::new(src).tokenize().expect("lex failed");
    let program = Parser::new(tokens).parse_program().expect("parse failed");
    let (classes, funcs) = sema::analyze(&program).expect("sema failed");
    let context = Context::create();
    let msg = match codegen::compile(&context, "test_module", &program, &classes, &funcs) {
        Ok(_) => panic!("codegen이 성공하면 안 됨"),
        Err(e) => e.to_string(),
    };
    msg
}

fn compile_expect_err_line(src: &str) -> usize {
    let tokens = Lexer::new(src).tokenize().expect("lex failed");
    let program = Parser::new(tokens).parse_program().expect("parse failed");
    let (classes, funcs) = sema::analyze(&program).expect("sema failed");
    let context = Context::create();
    let line = match codegen::compile(&context, "test_module", &program, &classes, &funcs) {
        Ok(_) => panic!("codegen이 성공하면 안 됨"),
        Err(e) => e.line,
    };
    line
}

#[test]
fn test_nullable_primitive_null_assignment_rejected() {
    let src = "fn f():\n    let x: i32? = null\n    return\n";
    let msg = compile_expect_err(src);
    assert!(msg.contains("nullable 원시 타입"), "unexpected: {msg}");
}

#[test]
fn null_string_declaration_rejected() {
    let src = "fn f():\n    let s: str? = null\n    return\n";
    let msg = compile_expect_err(src);
    assert!(msg.contains("nullable 원시 타입(str?)"), "unexpected: {msg}");
}

#[test]
fn null_object_declaration_accepted() {
    let src = "class Node:\n    pub v: i32\n\nfn main() -> i32:\n    let n: Node? = null\n    if n == null:\n        return 1\n    return 0\n";
    let ir = compile_ir(src);
    assert!(ir.contains("icmp eq i8* %"), "unexpected IR:\n{ir}");
}

#[test]
fn test_top_level_stray_statement_rejected() {
    let src = "let x = 1\nfn main() -> i32:\n    return 0\n";
    let msg = compile_expect_err(src);
    assert!(msg.contains("최상위 실행문"), "unexpected: {msg}");
}

#[test]
fn stray_statement_error_names_its_line() {
    let src = "fn main() -> i32:\n    return 0\n\nprint(1)\n";
    assert_eq!(compile_expect_err_line(src), 4);
    let msg = compile_expect_err(src);
    assert!(msg.starts_with("Codegen error at line 4: "), "unexpected: {msg}");
}

#[test]
fn print_of_nullable_value_rejected() {
    let src = "\
class Node:
    pub v: i32
fn main() -> i32:
    let n: Node? = null
    print(n)
    return 0
";
    let msg = compile_expect_err(src);
    assert!(msg.contains("print()는 nullable"), "unexpected: {msg}");
}

#[test]
fn print_of_object_rejected() {
    let src = "\
class Node:
    pub v: i32
fn main() -> i32:
    let n = new Node()
    print(n)
    return 0
";
    let msg = compile_expect_err(src);
    assert!(msg.contains("print()는 현재 'Node' 타입을 지원하지 않습니다"), "unexpected: {msg}");
}

#[test]
fn ir_return_constant() {
    let ir = compile_ir("fn main() -> i32:\n    return 42\n");
    assert!(ir.contains("define i32 @main()"), "{ir}");
    assert!(ir.contains("ret i32 42"), "{ir}");
}

#[test]
fn ir_arithmetic() {
    compile_ir("fn main() -> i32:\n    return 2 + 3 * 4\n");
}

#[test]
fn ir_function_call_and_literal_widening() {
    let src = "\
fn add(a: i64, b: i64) -> i64:
    return a + b

fn main() -> i32:
    let r = add(3, 4)
    return r as i32
";
    let ir = compile_ir(src);
    assert!(ir.contains("define i64 @jagx_fn_add(i64 %0, i64 %1)"), "{ir}");
    assert!(ir.contains("call i64 @jagx_fn_add(i64 3, i64 4)"), "{ir}");
}

#[test]
fn ir_while_loop() {
    let src = "\
fn main() -> i32:
    var i = 0
    var sum = 0
    while i < 5:
        sum += i
        i += 1
    return sum
";
    let ir = compile_ir(src);
    assert!(ir.contains("while.cond"), "{ir}");
    assert!(ir.contains("icmp slt i32"), "{ir}");
}

#[test]
fn ir_if_elif_else_all_branches() {
    let src = "\
fn classify(x: i32) -> i32:
    if x < 0:
        return -1
    elif x == 0:
        return 0
    else:
        return 1

fn main() -> i32:
    var total = 0
    total += classify(-5)
    total += classify(0)
    total += classify(9)
    return total
";
    compile_ir(src);
}

#[test]
fn ir_break_and_continue() {
    let src = "\
fn main() -> i32:
    var i = 0
    var sum = 0
    while i < 10:
        i += 1
        if i == 3:
            continue
        if i > 6:
            break
        sum += i
    return sum
";
    compile_ir(src);
}

#[test]
fn ir_bool_logic() {
    let src = "\
fn main() -> i32:
    let a = true
    let b = false
    if a and not b:
        return 1
    return 0
";
    compile_ir(src);
}

#[test]
fn ir_spec_full_example() {
    let src = "\
class Animal:
    pub name: str
    priv age: i32

    fn init(self, name: str, age: i32):
        self.name = name
        self.age = age

    pub fn speak(self) -> str:
        return self.name + \" makes a sound\"

class Dog(Animal):
    fn speak(self) -> str:
        return self.name + \" barks\"

fn main() -> i32:
    let d = new Dog(\"Rex\", 3)
    print(d.speak())
    return 0
";
    let ir = compile_ir(src);
    assert!(ir.contains("%class.Animal = type { i32, { i8*, i64 } }"), "{ir}");
    assert!(ir.contains("%class.Dog = type { i32, { i8*, i64 } }"), "{ir}");
    assert!(ir.contains("@jagx_method_Dog_speak"), "{ir}");
    assert!(ir.contains("call void @jagx_method_Animal_init"), "{ir}");
    assert!(ir.contains("@jagx_str_concat"), "{ir}");
}

#[test]
fn ir_field_mutation_via_method() {
    let src = "\
class Counter:
    pub count: i32

    fn init(self):
        self.count = 0

    pub fn increment(self):
        self.count += 1

fn main() -> i32:
    let c = new Counter()
    c.increment()
    c.increment()
    c.increment()
    return c.count
";
    compile_ir(src);
}

#[test]
fn ir_inherited_field_and_method() {
    let src = "\
class Animal:
    pub name: str
    fn init(self, name: str):
        self.name = name

class Dog(Animal):
    pub fn bark(self) -> str:
        return self.name + \"!\"

fn main() -> i32:
    let d = new Dog(\"Rex\")
    print(d.bark())
    return 0
";
    compile_ir(src);
}

#[test]
fn ir_nullable_class_field() {
    let src = "\
class Node:
    pub value: i32
    pub next: Node?

    fn init(self, v: i32):
        self.value = v
        self.next = null

fn main() -> i32:
    let a = new Node(1)
    let b = new Node(2)
    a.next = b
    if a.next == null:
        return 100
    if b.next == null:
        return a.value
    return -1
";
    compile_ir(src);
}

#[test]
fn ir_numeric_casts() {
    let src = "\
fn main() -> i32:
    let a: i64 = 10
    let b: i32 = a as i32
    let f: f64 = b as f64
    let back: i32 = f as i32
    return back
";
    let ir = compile_ir(src);
    assert!(ir.contains("sitofp"), "{ir}");
    assert!(ir.contains("fptosi"), "{ir}");
}

#[test]
fn ir_strings_and_arrays() {
    let src = "\
fn main() -> i32:
    let a = \"hello\"
    let b = \"hello\"
    let nums = [10, 20, 30, 40]
    var sum = 0
    var i: i64 = 0
    while i < nums.length:
        sum += nums[i]
        i += 1
    for x in [1, 2, 3, 4, 5]:
        sum += x
    let c = [1, 2, 3]
    c[1] = 99
    let e: i32[] = []
    let names = [\"Rex\", \"Fido\"]
    print(names[0])
    if a == b:
        return sum + c[1] + (e.length as i32)
    return 0
";
    let ir = compile_ir(src);
    assert!(ir.contains("@memcmp"), "{ir}");
    assert!(ir.contains("c\"hello\\00\""), "{ir}");
}

#[test]
fn ir_print_numeric_and_bool_types() {
    let src = "\
fn main() -> i32:
    print(42)
    print(true)
    print(3.5)
    print('x')
    return 0
";
    let ir = compile_ir(src);
    assert!(ir.contains("%lld\\0A"), "{ir}");
    assert!(ir.contains("true\\0A"), "{ir}");
    assert!(ir.contains("%f\\0A"), "{ir}");
    assert!(ir.contains("%c\\0A"), "{ir}");
}

#[test]
fn string_literal_length_is_in_bytes() {
    let ir = compile_ir("fn main() -> i32:\n    let s = \"한글\"\n    print(s)\n    return 0\n");
    assert!(ir.contains("i64 6 }"), "{ir}");
}


#[test]
fn llvm_types_of_values() {
    let context = Context::create();
    let classes = ClassTable::new();
    assert!(sema_ty_to_llvm(&context, &classes, &SemaType::non_null(Ty::I32)).is_some());
    assert!(sema_ty_to_llvm(&context, &classes, &SemaType::non_null(Ty::Void)).is_none());
    assert!(sema_ty_to_llvm(&context, &classes, &SemaType::new(Ty::NullLit, true)).is_none());
    assert!(sema_ty_to_llvm(&context, &classes, &SemaType::non_null(Ty::Class("Nope".to_string()))).is_none());
    let s = sema_ty_to_llvm(&context, &classes, &SemaType::non_null(Ty::Str)).unwrap();
    assert_eq!(s.into_struct_type(), str_struct_type(&context));
    let c = sema_ty_to_llvm(&context, &classes, &SemaType::non_null(Ty::Char)).unwrap();
    assert_eq!(c.into_int_type().get_bit_width(), 32);
    let b = sema_ty_to_llvm(&context, &classes, &SemaType::non_null(Ty::Bool)).unwrap();
    assert_eq!(b.into_int_type().get_bit_width(), 1);
}

#[test]
fn subclass_layout_starts_with_superclass_fields() {
    let src = "\
class A:
    pub z: i64
    pub a: i32
class B(A):
    pub b: bool
fn main() -> i32:
    let y = new A()
    let x = new B()
    x.z = 5
    return x.a + y.a
";
    let ir = compile_ir(src);
    assert!(ir.contains("%class.A = type { i32, i64 }"), "{ir}");
    assert!(ir.contains("%class.B = type { i32, i64, i1 }"), "{ir}");
}

#[test]
fn generator_scopes_shadow_and_close() {
    let mut env: CgEnv<u32> = CgEnv::new();
    env.define("x".to_string(), 1, SemaType::non_null(Ty::I32));
    env.define("y".to_string(), 2, SemaType::non_null(Ty::Bool));
    env.push_scope();
    env.define("x".to_string(), 3, SemaType::non_null(Ty::Str));
    let inner = env.lookup("x").unwrap();
    assert_eq!(inner.value, 3);
    assert_eq!(inner.ty, SemaType::non_null(Ty::Str));
    assert_eq!(env.lookup("y").unwrap().value, 2);
    env.pop_scope();
    let outer = env.lookup("x").unwrap();
    assert_eq!(outer.value, 1);
    assert_eq!(outer.ty, SemaType::non_null(Ty::I32));
    assert!(env.lookup("z").is_none());
}

#[test]
fn function_and_method_symbols() {
    assert_eq!(codegen::mangle_func("main"), "main");
    assert_eq!(codegen::mangle_func("malloc"), "jagx_fn_malloc");
    assert_eq!(codegen::mangle_func("jagx_fn_f"), "jagx_fn_jagx_fn_f");
    assert_ne!(codegen::mangle_func("f"), codegen::mangle_func("g"));
    assert_eq!(codegen::mangle_method("Dog", "speak"), "jagx_method_Dog_speak");
    let ir = compile_ir("fn printf() -> i32:\n    return 1\n\nfn main() -> i32:\n    return printf()\n");
    assert!(ir.contains("define i32 @jagx_fn_printf()"), "unexpected IR:\n{ir}");
    assert!(ir.contains("define i32 @main()"), "unexpected IR:\n{ir}");
}

#[test]
fn flattened_fields_are_inherited_first_then_by_name() {
    let src = "\
class A:
    pub z: i64
    pub a: i32
    pub m: bool
class B(A):
    pub y: str
    pub c: i32
";
    let tokens = Lexer::new(src).tokenize().expect("lex failed");
    let program = Parser::new(tokens).parse_program().expect("parse failed");
    let (classes, _funcs) = sema::analyze(&program).expect("sema failed");
    let names: Vec<String> = classes.flatten_fields("B").into_iter().map(|(n, _)| n).collect();
    assert_eq!(names, vec!["a", "m", "z", "c", "y"]);
}

#[test]
fn void_field_is_refused() {
    let src = "class Holder:\n    pub nothing: void\n\nfn main() -> i32:\n    return 0\n";
    let msg = compile_expect_err(src);
    assert!(msg.contains("값을 가질 수 없는 타입의 필드입니다"), "unexpected: {msg}");
    assert_eq!(compile_expect_err_line(src), 1);
}

#[test]
fn void_parameter_is_refused() {
    let src = "fn f(x: void) -> i32:\n    return 0\n\nfn main() -> i32:\n    return 0\n";
    let msg = compile_expect_err(src);
    assert!(msg.contains("값을 가질 수 없는 타입의 매개변수입니다"), "unexpected: {msg}");
    let method = "class K:\n    pub fn m(self, v: void):\n        return\n\nfn main() -> i32:\n    return 0\n";
    let msg = compile_expect_err(method);
    assert!(msg.contains("값을 가질 수 없는 타입의 매개변수입니다"), "unexpected: {msg}");
}

#[test]
fn float_literals_keep_their_value() {
    let src = "fn main() -> i32:\n    let a: f64 = 3.14\n    let b: f64 = 100.0\n    let c: f64 = 0.001\n    return 0\n";
    let ir = compile_ir(src);
    assert!(ir.contains("double 3.140000e+00"), "{ir}");
    assert!(ir.contains("double 1.000000e+02"), "{ir}");
    assert!(ir.contains("double 1.000000e-03"), "{ir}");
}

#[test]
fn null_array_declaration_accepted() {
    let src = "fn main() -> i32:\n    let a: i32[]? = null\n    if a == null:\n        return 1\n    return 0\n";
    let ir = compile_ir(src);
    assert!(ir.contains("icmp eq i8* %"), "unexpected IR:\n{ir}");
}

#[test]
fn unsigned_values_widen_by_zero_extension() {
    let src = "\
fn main() -> i32:
    let a: u8 = 200
    let b: i32 = a as i32
    let c: i8 = 5
    let d: i64 = c as i64
    let e: u32 = 7
    let f: u64 = e as u64
    return b
";
    let ir = compile_ir(src);
    assert!(ir.contains("zext i8"), "{ir}");
    assert!(ir.contains("sext i8"), "{ir}");
    assert!(ir.contains("zext i32"), "{ir}");
}

#[test]
fn unsigned_division_and_comparison() {
    let src = "\
fn main() -> i32:
    let a: u32 = 10
    let b: u32 = 3
    let q: u32 = a / b
    let r: u32 = a % b
    if q < r:
        return 1
    let x: i32 = 10
    let y: i32 = 3
    let z: i32 = x / y - x % y
    if z > y:
        return 2
    return 0
";
    let ir = compile_ir(src);
    assert!(ir.contains("udiv i32"), "{ir}");
    assert!(ir.contains("urem i32"), "{ir}");
    assert!(ir.contains("icmp ult i32"), "{ir}");
    assert!(ir.contains("sdiv i32"), "{ir}");
    assert!(ir.contains("srem i32"), "{ir}");
    assert!(ir.contains("sub i32"), "{ir}");
    assert!(ir.contains("icmp sgt i32"), "{ir}");
}

#[test]
fn test_object_equality_and_loop_instructions() {
    let ir = compile_ir("class A:\n    pub x: i32\nfn f(a: A, b: A) -> bool:\n    return a != b\nfn g(a: A, b: A) -> bool:\n    return a == b\n");
    assert!(ir.contains("icmp ne i64"), "{ir}");
    assert!(ir.contains("icmp eq i64"), "{ir}");
    let ir = compile_ir("fn h(xs: i32[]) -> i32:\n    var s = 0\n    for x in xs:\n        s += x\n    return s\n");
    assert!(ir.contains("icmp ult i64"), "{ir}");
    assert!(ir.contains("for.next = add i64"), "{ir}");
}

#[test]
fn test_nullable_primitive_message_and_line() {
    let src = "fn f():\n    let x: i32? = null\n    return\n";
    assert_eq!(compile_expect_err_line(src), 2);
    let msg = compile_expect_err(src);
    assert!(
        msg.ends_with("nullable 원시 타입(i32?)의 코드 생성은 아직 지원되지 않습니다 (null 상태를 표현할 태그 표현이 설계되지 않음)"),
        "unexpected: {msg}"
    );
}
