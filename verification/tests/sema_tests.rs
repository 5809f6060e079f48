use javagxc::lexer::Lexer;
use javagxc::parser::Parser;
use javagxc::sema;

fn check(src: &str) -> Result<(), String> {
    let tokens = Lexer::new(src).tokenize().expect("lex failed");
    let program = Parser::new(tokens).parse_program().expect("parse failed");
    sema::check_program(&program).map_err(|e| e.to_string())
}

fn assert_ok(src: &str) {
    if let Err(e) = check(src) {
        panic!("expected OK, got error: {e}\n--- source ---\n{src}");
    }
}

fn assert_err_contains(src: &str, needle: &str) {
    match check(src) {
        Ok(()) => panic!("expected error containing '{needle}', got OK\n--- source ---\n{src}"),
        Err(e) => assert!(e.contains(needle), "error '{e}' does not contain '{needle}'"),
    }
}

// -----------------------------------------------------------------
// SPEC 전체 예제 / 기본 통과 케이스
// -----------------------------------------------------------------

#[test]
fn test_spec_full_example_passes() {
    let src = "\
class Animal:
    pub name: str
    priv age: i32

    fn init(self, name: str, age: i32):
        self.name = name
        self.age = age

    pub fn speak(self) -> str:
        return self.name + \" makes a sound\"

class Dog(Animal):
    fn speak(self) -> str:
        return self.name + \" barks\"

fn main() -> i32:
    let d = new Dog(\"Rex\", 3)
    print(d.speak())
    return 0
";
    assert_ok(src);
}

#[test]
fn test_basic_var_decl_and_arithmetic() {
    assert_ok("let x: i32 = 10\nlet y = x + 5\n");
}

#[test]
fn test_literal_coercion_to_declared_int_type() {
    assert_ok("let x: i64 = 10\n"); // i32 기본 리터럴이 i64 선언 위치에 승격 허용
}

#[test]
fn test_nullable_assignment() {
    assert_ok("let x: i32? = null\nlet y: i32? = 5\n");
}

// -----------------------------------------------------------------
// 타입 오류
// -----------------------------------------------------------------

#[test]
fn test_type_mismatch_var_decl() {
    assert_err_contains("let x: str = 10\n", "일치하지 않습니다");
}

#[test]
fn test_undefined_variable() {
    assert_err_contains("let x = y + 1\n", "정의되지 않은 변수");
}

#[test]
fn test_null_without_declared_type_is_error() {
    assert_err_contains("let x = null\n", "타입을 추론할 수 없습니다");
}

#[test]
fn test_non_null_cannot_receive_nullable() {
    let src = "let a: i32? = null\nlet b: i32 = a\n";
    assert_err_contains(src, "일치하지 않습니다");
}

#[test]
fn test_binary_type_mismatch() {
    assert_err_contains("let x = \"a\" + 1\n", "'+' 연산자는");
}

#[test]
fn test_if_condition_must_be_bool() {
    assert_err_contains("if 1:\n    let x = 1\n", "bool 타입이어야 합니다");
}

#[test]
fn test_and_or_require_bool_operands() {
    assert_err_contains("let x = 1 and 2\n", "bool 타입이어야 합니다");
}

// -----------------------------------------------------------------
// 클래스 / 상속
// -----------------------------------------------------------------

#[test]
fn test_unknown_class_in_new() {
    assert_err_contains("let x = new Ghost()\n", "정의되지 않은 클래스");
}

#[test]
fn test_unknown_superclass() {
    assert_err_contains("class A(NoSuchClass):\n    fn f(self):\n        return\n", "정의되지 않은 클래스");
}

#[test]
fn test_duplicate_class_name() {
    let src = "class A:\n    fn f(self):\n        return\nclass A:\n    fn g(self):\n        return\n";
    assert_err_contains(src, "중복 선언");
}

#[test]
fn test_inheritance_cycle() {
    let src = "class A(B):\n    fn f(self):\n        return\nclass B(A):\n    fn g(self):\n        return\n";
    assert_err_contains(src, "순환");
}

#[test]
fn test_inherited_field_access() {
    let src = "\
class Animal:
    pub name: str
    fn init(self, name: str):
        self.name = name

class Dog(Animal):
    fn bark(self) -> str:
        return self.name

fn main() -> i32:
    let d = new Dog(\"Rex\")
    return 0
";
    assert_ok(src);
}

#[test]
fn test_private_field_access_outside_class_is_error() {
    let src = "\
class Box:
    priv value: i32
    fn init(self, v: i32):
        self.value = v

fn main() -> i32:
    let b = new Box(1)
    let x = b.value
    return 0
";
    assert_err_contains(src, "private 필드");
}

#[test]
fn private_field_is_hidden_from_subclasses() {
    let src = "\
class Base:
    value: i32
    pub shared: i32

class Derived(Base):
    fn get(self) -> i32:
        return self.value
";
    assert_err_contains(src, "private 필드");
    let ok = "\
class Base:
    value: i32
    pub shared: i32

class Derived(Base):
    fn get(self) -> i32:
        return self.shared
";
    assert_ok(ok);
}

#[test]
fn test_private_method_access_outside_class_is_error() {
    let src = "\
class Box:
    fn secret(self) -> i32:
        return 1

fn main() -> i32:
    let b = new Box()
    let x = b.secret()
    return 0
";
    assert_err_contains(src, "private 메서드");
}

#[test]
fn test_constructor_arg_count_mismatch() {
    let src = "\
class Box:
    priv value: i32
    fn init(self, v: i32):
        self.value = v

fn main() -> i32:
    let b = new Box()
    return 0
";
    assert_err_contains(src, "인자 개수");
}

#[test]
fn test_no_constructor_with_args_is_error() {
    let src = "class Empty:\n    fn f(self):\n        return\nlet e = new Empty(1)\n";
    assert_err_contains(src, "생성자(init)가 없어");
}

// -----------------------------------------------------------------
// 대입 / 가변성
// -----------------------------------------------------------------

#[test]
fn test_reassign_let_is_error() {
    assert_err_contains("let x = 1\nx = 2\n", "재대입할 수 없습니다");
}

#[test]
fn test_reassign_var_is_ok() {
    assert_ok("var x = 1\nx = 2\n");
}

#[test]
fn test_invalid_assign_target_caught_at_parse() {
    // 1 + 2 = 3 은 파서 단계에서 이미 거부되므로 sema까지 도달하지 않는다.
    let tokens = Lexer::new("1 + 2 = 3\n").tokenize().unwrap();
    assert!(Parser::new(tokens).parse_program().is_err());
}

// -----------------------------------------------------------------
// 제어 흐름 / 반환
// -----------------------------------------------------------------

#[test]
fn test_return_outside_function_is_error() {
    assert_err_contains("return 1\n", "return");
}

#[test]
fn test_break_outside_loop_is_error() {
    assert_err_contains("break\n", "break");
}

#[test]
fn test_break_inside_while_is_ok() {
    assert_ok("var x = 0\nwhile x < 10:\n    x += 1\n    break\n");
}

#[test]
fn test_missing_return_in_non_void_function_is_error() {
    let src = "fn f() -> i32:\n    let x = 1\n";
    assert_err_contains(src, "값을 반환");
}

#[test]
fn test_all_branches_return_satisfies_check() {
    let src = "\
fn f(x: bool) -> i32:
    if x:
        return 1
    else:
        return 2
";
    assert_ok(src);
}

#[test]
fn test_return_type_mismatch() {
    let src = "fn f() -> i32:\n    return \"oops\"\n";
    assert_err_contains(src, "반환 타입이 일치하지 않습니다");
}

// -----------------------------------------------------------------
// 함수 호출
// -----------------------------------------------------------------

#[test]
fn test_call_undefined_function() {
    assert_err_contains("ghost()\n", "정의되지 않은 함수");
}

#[test]
fn test_call_arg_type_mismatch() {
    let src = "fn f(x: i32):\n    return\nf(\"str\")\n";
    assert_err_contains(src, "인자");
}

#[test]
fn test_call_with_correct_args_ok() {
    let src = "fn f(x: i32) -> i32:\n    return x + 1\nlet r = f(10)\n";
    assert_ok(src);
}

// -----------------------------------------------------------------
// 캐스팅
// -----------------------------------------------------------------

#[test]
fn test_numeric_cast_ok() {
    assert_ok("let a: i64 = 100\nlet b: i32 = a as i32\n");
}

#[test]
fn implicit_narrowing_of_a_variable_is_refused() {
    assert_err_contains("let a: i64 = 100\nlet b: i32 = a\n", "선언 타입과 값의 타입이 일치하지 않습니다");
    assert_err_contains("let a: i32 = 100\nlet b: i64 = a\n", "선언 타입과 값의 타입이 일치하지 않습니다");
}

#[test]
fn test_cast_non_numeric_is_error() {
    assert_err_contains("let a = \"x\" as i32\n", "숫자 타입 간에만");
}

// -----------------------------------------------------------------
// 미지원 기능 (명시적 에러로 처리됨을 확인)
// -----------------------------------------------------------------

#[test]
fn test_indexing_not_yet_supported() {
    assert_err_contains("let arr = 1\nlet x = arr[0]\n", "인덱싱");
}

// -----------------------------------------------------------------
// 배열 (6단계)
// -----------------------------------------------------------------

#[test]
fn test_array_literal_and_index_ok() {
    assert_ok("let a = [1, 2, 3]\nlet x = a[0]\n");
}

#[test]
fn test_array_length_is_i64() {
    assert_ok("let a = [1, 2, 3]\nlet len: i64 = a.length\n");
}

#[test]
fn test_empty_array_needs_declared_type() {
    assert_err_contains("let a = []\n", "타입을 추론할 수 없습니다");
}

#[test]
fn test_empty_array_with_type_ok() {
    assert_ok("let a: i32[] = []\n");
}

#[test]
fn test_array_element_type_mismatch() {
    assert_err_contains("let a = [1, \"x\"]\n", "배열 원소");
}

#[test]
fn test_index_non_array_is_error() {
    assert_err_contains("let x = 1\nlet y = x[0]\n", "인덱싱할 수 없습니다");
}

#[test]
fn test_index_with_non_integer_is_error() {
    assert_err_contains("let a = [1, 2]\nlet x = a[\"0\"]\n", "정수 타입");
}

#[test]
fn test_for_over_array_binds_element_type() {
    let src = "fn f():\n    var total = 0\n    for x in [1, 2, 3]:\n        total += x\n    return\n";
    assert_ok(src);
}

#[test]
fn test_for_over_non_array_is_error() {
    assert_err_contains("let y = 1\nfor x in y:\n    x\n", "배열이어야 합니다");
}

#[test]
fn test_array_index_assignment_ok() {
    assert_ok("let a = [1, 2, 3]\na[0] = 99\n");
}

#[test]
fn test_nested_function_decl_is_error() {
    let src = "fn outer():\n    fn inner():\n        return\n    return\n";
    assert_err_contains(src, "중첩된");
}

// -----------------------------------------------------------------
// Library-level checks of the tables, scopes and types
// -----------------------------------------------------------------

use javagxc::parser::ast::{BaseType, TypeAnnotation};
use javagxc::sema::class_table::{ClassInfo, ClassTable, FieldInfo, MethodSig};
use javagxc::sema::env::{Env, VarBinding};
use javagxc::sema::types::{resolve_type, SemaType, Ty};

fn program(src: &str) -> javagxc::parser::ast::Program {
    let tokens = Lexer::new(src).tokenize().expect("lex failed");
    Parser::new(tokens).parse_program().expect("parse failed")
}

fn method(name: &str, is_pub: bool, owner: &str) -> MethodSig {
    MethodSig {
        name: name.to_string(),
        has_self: true,
        is_pub,
        param_names: vec![],
        param_types: vec![],
        ret: SemaType::non_null(Ty::Void),
        owner: owner.to_string(),
    }
}

fn two_classes() -> ClassTable {
    let mut t = ClassTable::new();
    t.insert(ClassInfo {
        name: "Animal".into(),
        superclass: None,
        fields: vec![FieldInfo { name: "name".into(), ty: SemaType::non_null(Ty::Str), is_pub: true, owner: "Animal".into() }],
        methods: vec![method("speak", true, "Animal"), method("hidden", false, "Animal")],
        line: 1,
    });
    t.insert(ClassInfo {
        name: "Dog".into(),
        superclass: Some("Animal".into()),
        fields: vec![],
        methods: vec![method("speak", false, "Dog")],
        line: 5,
    });
    t
}

#[test]
fn test_check_program_agrees_with_analyze() {
    for src in ["let x = 1\n", "let x = y\n", "class A:\n    fn f(self):\n        return\n", "return 1\n"] {
        let p = program(src);
        assert_eq!(sema::check_program(&p).is_ok(), sema::analyze(&p).is_ok(), "source: {:?}", src);
    }
}

#[test]
fn test_error_line_and_report() {
    let p = program("let a = 1\nlet b: str = a\n");
    let e = sema::check_program(&p).unwrap_err();
    assert_eq!(e.line, 2);
    assert!(e.to_string().starts_with("Semantic error at line 2: "), "{}", e.to_string());
}

#[test]
fn test_analyze_returns_tables() {
    let p = program("class A:\n    pub x: i32\nfn f(a: i32) -> i32:\n    return a\n");
    let (classes, funcs) = sema::analyze(&p).expect("analysis failed");
    assert!(classes.contains("A"));
    assert_eq!(classes.names(), vec!["A".to_string()]);
    assert_eq!(funcs.len(), 1);
    let f = funcs.get("f").expect("f is declared");
    assert_eq!(f.param_names, vec!["a".to_string()]);
    assert_eq!(f.param_types, vec![SemaType::non_null(Ty::I32)]);
    assert_eq!(f.ret, SemaType::non_null(Ty::I32));
    assert!(funcs.get("g").is_none());
    let field = classes.resolve_field("A", "x").expect("field x");
    assert_eq!(field.ty, SemaType::non_null(Ty::I32));
    assert_eq!(field.owner, "A");
}

#[test]
fn test_subclass_relation() {
    let t = two_classes();
    assert!(t.is_same_or_subclass("Dog", "Dog"));
    assert!(t.is_same_or_subclass("Dog", "Animal"));
    assert!(!t.is_same_or_subclass("Animal", "Dog"));
    assert!(t.is_same_or_subclass("Ghost", "Ghost"));
}

#[test]
fn test_resolve_method_prefers_subclass() {
    let t = two_classes();
    assert_eq!(t.resolve_method("Dog", "speak").unwrap().owner, "Dog");
    assert_eq!(t.resolve_method("Dog", "hidden").unwrap().owner, "Animal");
    assert!(t.resolve_method("Dog", "fly").is_none());
}

#[test]
fn test_base_visibility_is_inherited() {
    let t = two_classes();
    assert_eq!(t.resolve_method_base_visibility("Dog", "speak"), Some(true));
    assert_eq!(t.resolve_method_base_visibility("Dog", "hidden"), Some(false));
    assert_eq!(t.resolve_method_base_visibility("Dog", "fly"), None);
}

#[test]
fn test_inherited_field_lookup() {
    let t = two_classes();
    assert_eq!(t.resolve_field("Dog", "name").unwrap().owner, "Animal");
    assert!(t.resolve_field("Dog", "age").is_none());
    assert!(t.get("Cat").is_none());
}

#[test]
fn test_insert_replaces_same_name() {
    let mut t = two_classes();
    t.insert(ClassInfo { name: "Dog".into(), superclass: None, fields: vec![], methods: vec![], line: 9 });
    assert_eq!(t.names(), vec!["Animal".to_string(), "Dog".to_string()]);
    assert_eq!(t.get("Dog").unwrap().line, 9);
    assert!(!t.is_same_or_subclass("Dog", "Animal"));
}

#[test]
fn test_cycle_detection_reports_first_class() {
    let mut t = ClassTable::new();
    t.insert(ClassInfo { name: "A".into(), superclass: Some("B".into()), fields: vec![], methods: vec![], line: 1 });
    t.insert(ClassInfo { name: "B".into(), superclass: Some("A".into()), fields: vec![], methods: vec![], line: 3 });
    let e = t.check_no_cycles().unwrap_err();
    assert_eq!(e.line, 1);
    assert!(e.message.contains("A -> B -> A"), "{}", e.message);
    assert!(two_classes().check_no_cycles().is_ok());
}

#[test]
fn test_env_define_lookup_and_scopes() {
    let mut env = Env::new();
    env.define("x".into(), VarBinding { ty: SemaType::non_null(Ty::I32), mutable: false });
    assert_eq!(env.lookup("x").unwrap().ty, SemaType::non_null(Ty::I32));
    env.push_scope();
    env.define("x".into(), VarBinding { ty: SemaType::non_null(Ty::Str), mutable: true });
    assert_eq!(env.lookup("x").unwrap().ty, SemaType::non_null(Ty::Str));
    assert!(env.lookup("x").unwrap().mutable);
    env.pop_scope();
    assert_eq!(env.lookup("x").unwrap().ty, SemaType::non_null(Ty::I32));
    assert!(env.lookup("y").is_none());
}

#[test]
fn test_numeric_classification() {
    assert!(Ty::U16.is_integer() && Ty::U16.is_numeric() && !Ty::U16.is_float());
    assert!(Ty::F32.is_float() && Ty::F32.is_numeric() && !Ty::F32.is_integer());
    assert!(!Ty::Bool.is_numeric());
    let t = SemaType::new(Ty::I8, true);
    assert!(t.is_integer() && t.is_numeric() && !t.is_float());
}

#[test]
fn test_resolve_type_against_table() {
    let t = two_classes();
    let ann = TypeAnnotation { base: BaseType::Array(Box::new(BaseType::Named("Dog".into()))), nullable: true };
    let r = resolve_type(&ann, &t, 7).expect("Dog is known");
    assert_eq!(r, SemaType::new(Ty::Array(Box::new(Ty::Class("Dog".into()))), true));
    let bad = TypeAnnotation { base: BaseType::Named("Cat".into()), nullable: false };
    let e = resolve_type(&bad, &t, 7).unwrap_err();
    assert_eq!(e.line, 7);
    assert!(e.message.contains("정의되지 않은 타입"));
}

#[test]
fn test_literal_coercion_rules() {
    assert_ok("let a: f32 = 1\nlet b: f64 = 2.5\nlet c: u8 = (3)\n");
    assert_err_contains("let a: i32 = 2.5\n", "일치하지 않습니다");
    assert_ok("let a: i64 = 5\nlet b = a + 1\nlet c = 2 * a\n");
    assert_err_contains("let a: i64 = 5\nlet b: i32 = 1\nlet c = a + b\n", "'+' 연산자는");
}

#[test]
fn test_string_concat_and_comparisons() {
    assert_ok("let s = \"a\" + \"b\"\nlet t = s == \"ab\"\nlet u = 1 < 2\n");
    assert_err_contains("let t = \"a\" == 1\n", "비교할 수 없는");
    assert_ok("let x: i32? = null\nlet y = x == null\n");
}

#[test]
fn test_member_errors() {
    let src = "class A:\n    pub x: i32\n    pub fn m(self):\n        return\nlet a = new A()\nlet y = a.m\n";
    assert_err_contains(src, "메서드입니다");
    assert_err_contains("let a = [1]\nlet y = a.size\n", "'length' 외의 필드");
}

#[test]
fn test_exact_messages_of_rules() {
    assert_eq!(
        check("break\n").unwrap_err(),
        "Semantic error at line 1: 루프 바깥에서 'break'를 사용할 수 없습니다"
    );
    assert_eq!(
        check("let x = null\n").unwrap_err(),
        "Semantic error at line 1: 'x'의 타입을 추론할 수 없습니다 (null은 명시적 타입 주석이 필요합니다)"
    );
    assert_eq!(
        check("let x: str = 10\n").unwrap_err(),
        "Semantic error at line 1: 변수 'x'의 선언 타입과 값의 타입이 일치하지 않습니다: str vs i32"
    );
    assert_eq!(
        check("let x = 1\nx = 2\n").unwrap_err(),
        "Semantic error at line 2: 'x'은(는) 재대입할 수 없습니다 (let/const로 선언됨, var를 사용하세요)"
    );
    assert_eq!(
        check("fn f() -> i32:\n    let x = 1\n").unwrap_err(),
        "Semantic error at line 1: 함수 'f'의 모든 실행 경로가 값을 반환하지 않습니다 (반환 타입: i32)"
    );
    assert_eq!(
        check("let y = x + 1\n").unwrap_err(),
        "Semantic error at line 0: 정의되지 않은 변수입니다: 'x'"
    );
}

#[test]
fn test_exact_messages_of_members_and_calls() {
    let src = "class Box:\n    priv value: i32\n    fn secret(self) -> i32:\n        return 1\nlet b = new Box()\nlet v = b.value\n";
    assert_eq!(check(src).unwrap_err(), "Semantic error at line 6: private 필드에 접근할 수 없습니다: 'Box.value'");
    let src = "class Box:\n    fn secret(self) -> i32:\n        return 1\nlet b = new Box()\nlet v = b.secret()\n";
    assert_eq!(check(src).unwrap_err(), "Semantic error at line 5: private 메서드에 접근할 수 없습니다: 'Box.secret'");
    let src = "fn f(a: i32, b: i32) -> i32:\n    return a\nlet x = f(1)\n";
    assert_eq!(check(src).unwrap_err(), "Semantic error at line 3: 'f' 호출의 인자 개수가 일치하지 않습니다: 기대 2개, 실제 1개");
    let src = "fn f(a: i32) -> i32:\n    return a\nlet x = f(true)\n";
    assert_eq!(check(src).unwrap_err(), "Semantic error at line 3: 'f'의 1번째 인자 타입이 일치하지 않습니다: 기대 i32, 실제 bool");
    assert_eq!(check("let g = new Ghost()\n").unwrap_err(), "Semantic error at line 1: 정의되지 않은 클래스입니다: 'Ghost'");
    assert_eq!(check("let x = -true\n").unwrap_err(), "Semantic error at line 1: 단항 '-'는 숫자 타입에만 사용할 수 있습니다 (실제: bool)");
    assert_eq!(check("let x = [1, true]\n").unwrap_err(), "Semantic error at line 1: 배열 원소의 타입이 일치하지 않습니다: i32 vs bool");
}

#[test]
fn test_exact_messages_of_class_table() {
    let src = "class A(B):\n    pub x: i32\nclass B(A):\n    pub y: i32\n";
    assert_eq!(check(src).unwrap_err(), "Semantic error at line 1: 클래스 상속 관계에 순환이 있습니다: A -> B -> A");
    let src = "class A:\n    pub x: i32\nclass A:\n    pub y: i32\n";
    assert_eq!(check(src).unwrap_err(), "Semantic error at line 3: 클래스 'A'가 중복 선언되었습니다");
    let src = "class A:\n    pub x: i32\nclass B(A):\n    pub x: i32\n";
    assert_eq!(
        check(src).unwrap_err(),
        "Semantic error at line 4: 필드 'x'가 상위 클래스에 이미 선언되어 있어 재선언할 수 없습니다"
    );
    let src = "class A:\n    pub x: Nope\n";
    assert_eq!(check(src).unwrap_err(), "Semantic error at line 2: 정의되지 않은 타입입니다: 'Nope'");
    let src = "fn f(a: Nope):\n    return\n";
    assert_eq!(check(src).unwrap_err(), "Semantic error at line 1: 정의되지 않은 타입입니다: 'Nope'");
}

#[test]
fn test_built_table_has_no_cycle_and_subclass_is_transitive() {
    let src = "class A:\n    pub x: i32\nclass B(A):\n    pub y: i32\nclass C(B):\n    pub z: i32\n";
    let tokens = Lexer::new(src).tokenize().expect("lex failed");
    let program = Parser::new(tokens).parse_program().expect("parse failed");
    let table = javagxc::sema::class_table::build_class_table(&program).expect("table");
    assert!(table.check_no_cycles().is_ok());
    assert!(table.is_same_or_subclass("C", "B"));
    assert!(table.is_same_or_subclass("B", "A"));
    assert!(table.is_same_or_subclass("C", "A"));
    assert!(!table.is_same_or_subclass("A", "C"));
}
