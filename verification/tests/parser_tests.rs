use javagxc::lexer::Lexer;
use javagxc::parser::ast::{AssignOp, BaseType, BinaryOp, Expr, Program, Stmt, TypeAnnotation, VarKind};
use javagxc::parser::Parser;
use javagxc::parser::targets::assignments_ok;

fn parse(src: &str) -> Program {
    let tokens = Lexer::new(src).tokenize().expect("lex failed");
    Parser::new(tokens).parse_program().expect("parse failed")
}

fn parse_err(src: &str) -> String {
    let tokens = Lexer::new(src).tokenize().expect("lex failed");
    Parser::new(tokens)
        .parse_program()
        .expect_err("parse가 성공하면 안 됨")
        .to_string()
}

#[test]
fn test_var_decl_with_type() {
    let prog = parse("let x: i32 = 10\n");
    assert_eq!(prog.items.len(), 1);
    match &prog.items[0] {
        Stmt::VarDecl(vd) => {
            assert_eq!(vd.kind, VarKind::Let);
            assert_eq!(vd.name, "x");
            assert_eq!(vd.ty, Some(TypeAnnotation { base: BaseType::I32, nullable: false }));
            assert_eq!(vd.value, Expr::IntLit(10));
        }
        other => panic!("expected VarDecl, got {:?}", other),
    }
}

#[test]
fn test_var_decl_inferred() {
    let prog = parse("var y = 3.5\n");
    match &prog.items[0] {
        Stmt::VarDecl(vd) => {
            assert_eq!(vd.kind, VarKind::Var);
            assert_eq!(vd.ty, None);
            match &vd.value {
                Expr::FloatLit(text) => assert_eq!(text.parse::<f64>().unwrap(), 3.5),
                other => panic!("expected a float literal, got {:?}", other),
            }
        }
        other => panic!("unexpected: {:?}", other),
    }
}

#[test]
fn test_nullable_type() {
    let prog = parse("let x: i32? = null\n");
    match &prog.items[0] {
        Stmt::VarDecl(vd) => {
            assert_eq!(vd.ty, Some(TypeAnnotation { base: BaseType::I32, nullable: true }));
            assert_eq!(vd.value, Expr::Null);
        }
        other => panic!("unexpected: {:?}", other),
    }
}

#[test]
fn test_operator_precedence() {
    // 1 + 2 * 3 == 7  →  Add(1, Mul(2,3))
    let prog = parse("let r = 1 + 2 * 3\n");
    let Stmt::VarDecl(vd) = &prog.items[0] else { panic!() };
    match &vd.value {
        Expr::Binary { op: BinaryOp::Add, lhs, rhs, .. } => {
            assert_eq!(**lhs, Expr::IntLit(1));
            match rhs.as_ref() {
                Expr::Binary { op: BinaryOp::Mul, lhs, rhs, .. } => {
                    assert_eq!(**lhs, Expr::IntLit(2));
                    assert_eq!(**rhs, Expr::IntLit(3));
                }
                other => panic!("unexpected rhs: {:?}", other),
            }
        }
        other => panic!("unexpected: {:?}", other),
    }
}

#[test]
fn test_logical_precedence() {
    // a or b and c  →  Or(a, And(b, c))  (and가 or보다 우선순위 높음)
    let prog = parse("let r = a or b and c\n");
    let Stmt::VarDecl(vd) = &prog.items[0] else { panic!() };
    match &vd.value {
        Expr::Binary { op: BinaryOp::Or, lhs, rhs, .. } => {
            assert_eq!(**lhs, Expr::Ident("a".into()));
            assert!(matches!(rhs.as_ref(), Expr::Binary { op: BinaryOp::And, .. }));
        }
        other => panic!("unexpected: {:?}", other),
    }
}

#[test]
fn test_class_with_field_and_method() {
    let src = "\
class Animal:
    pub name: str

    fn init(self, name: str):
        self.name = name

    pub fn speak(self) -> str:
        return self.name
";
    let prog = parse(src);
    assert_eq!(prog.items.len(), 1);
    let Stmt::ClassDecl(class) = &prog.items[0] else { panic!() };
    assert_eq!(class.name, "Animal");
    assert_eq!(class.superclass, None);
    assert_eq!(class.fields.len(), 1);
    assert_eq!(class.fields[0].name, "name");
    assert!(class.fields[0].is_pub);
    assert_eq!(class.methods.len(), 2);
    assert_eq!(class.methods[0].name, "init");
    assert!(class.methods[0].has_self);
    assert_eq!(class.methods[1].name, "speak");
    assert!(class.methods[1].is_pub);
    assert_eq!(
        class.methods[1].ret_ty,
        Some(TypeAnnotation { base: BaseType::Str, nullable: false })
    );
}

#[test]
fn test_class_inheritance() {
    let src = "class Dog(Animal):\n    fn speak(self) -> str:\n        return \"bark\"\n";
    let prog = parse(src);
    let Stmt::ClassDecl(class) = &prog.items[0] else { panic!() };
    assert_eq!(class.superclass, Some("Animal".to_string()));
}

#[test]
fn test_new_expr_and_call_chain() {
    let src = "let d = new Dog(\"Rex\", 3)\nd.speak()\n";
    let prog = parse(src);
    let Stmt::VarDecl(vd) = &prog.items[0] else { panic!() };
    match &vd.value {
        Expr::New { class_name, args, .. } => {
            assert_eq!(class_name, "Dog");
            assert_eq!(args.len(), 2);
        }
        other => panic!("unexpected: {:?}", other),
    }
    match &prog.items[1] {
        Stmt::Expr(Expr::Call { callee, args, .. }) => {
            assert!(matches!(callee.as_ref(), Expr::Member { name, .. } if name == "speak"));
            assert_eq!(args.len(), 0);
        }
        other => panic!("unexpected: {:?}", other),
    }
}

#[test]
fn test_if_elif_else() {
    let src = "\
if a:
    let x = 1
elif b:
    let x = 2
else:
    let x = 3
";
    let prog = parse(src);
    let Stmt::If(if_stmt) = &prog.items[0] else { panic!() };
    assert_eq!(if_stmt.branches.len(), 2);
    assert!(if_stmt.else_body.is_some());
}

#[test]
fn test_while_and_for() {
    let prog = parse("while x:\n    x = x - 1\nfor i in items:\n    print(i)\n");
    assert!(matches!(prog.items[0], Stmt::While(_)));
    assert!(matches!(prog.items[1], Stmt::For(_)));
}

#[test]
fn test_assign_ops() {
    let prog = parse("x += 1\nx -= 1\nx *= 2\nx /= 2\n");
    for (item, expected) in prog.items.iter().zip([
        AssignOp::AddAssign,
        AssignOp::SubAssign,
        AssignOp::MulAssign,
        AssignOp::DivAssign,
    ]) {
        match item {
            Stmt::Expr(Expr::Assign { op, .. }) => assert_eq!(*op, expected),
            other => panic!("unexpected: {:?}", other),
        }
    }
}

#[test]
fn test_invalid_assign_target_is_error() {
    let msg = parse_err("1 + 2 = 3\n");
    assert!(msg.contains("대입"), "unexpected message: {msg}");
}

#[test]
fn test_index_and_member_chain() {
    let prog = parse("let v = arr[0].value\n");
    let Stmt::VarDecl(vd) = &prog.items[0] else { panic!() };
    match &vd.value {
        Expr::Member { object, name, .. } => {
            assert_eq!(name, "value");
            assert!(matches!(object.as_ref(), Expr::Index { .. }));
        }
        other => panic!("unexpected: {:?}", other),
    }
}

#[test]
fn test_cast_expr() {
    let prog = parse("let b: i32 = a as i32\n");
    let Stmt::VarDecl(vd) = &prog.items[0] else { panic!() };
    assert!(matches!(vd.value, Expr::Cast { .. }));
}

#[test]
fn test_full_program_from_spec_example() {
    let src = "\
class Animal:
    pub name: str
    priv age: i32

    fn init(self, name: str, age: i32):
        self.name = name
        self.age = age

    pub fn speak(self) -> str:
        return self.name + \" makes a sound\"

class Dog(Animal):
    fn speak(self) -> str:
        return self.name + \" barks\"

fn main() -> i32:
    let d = new Dog(\"Rex\", 3)
    print(d.speak())
    return 0
";
    let prog = parse(src);
    assert_eq!(prog.items.len(), 3);
    assert!(matches!(prog.items[0], Stmt::ClassDecl(_)));
    assert!(matches!(prog.items[1], Stmt::ClassDecl(_)));
    match &prog.items[2] {
        Stmt::FuncDecl(f) => {
            assert_eq!(f.name, "main");
            assert!(!f.has_self);
            assert_eq!(f.body.len(), 3);
        }
        other => panic!("unexpected: {:?}", other),
    }
}

#[test]
fn test_missing_colon_is_error() {
    let msg = parse_err("if x\n    let y = 1\n");
    assert!(msg.contains("':'"), "unexpected message: {msg}");
}

#[test]
fn test_parse_error_reports_position() {
    let tokens = Lexer::new("let = 1\n").tokenize().expect("lex failed");
    let err = Parser::new(tokens).parse_program().expect_err("must fail");
    assert_eq!((err.line, err.col), (1, 5));
    assert!(err.to_string().starts_with("Parse error at 1:5: "), "{}", err.to_string());
}

#[test]
fn test_every_assign_target_is_lvalue() {
    let prog = parse("x = 1\nself.a = 2\narr[0] = 3\n");
    for item in &prog.items {
        match item {
            Stmt::Expr(Expr::Assign { target, .. }) => assert!(target.is_lvalue()),
            other => panic!("unexpected: {:?}", other),
        }
    }
}

#[test]
fn test_is_lvalue() {
    assert!(Expr::Ident("x".into()).is_lvalue());
    assert!(!Expr::IntLit(1).is_lvalue());
    assert!(!Expr::Grouping(Box::new(Expr::Ident("x".into()))).is_lvalue());
}

#[test]
fn test_unary_and_grouping() {
    let prog = parse("let r = -(a + 1)\n");
    let Stmt::VarDecl(vd) = &prog.items[0] else { panic!() };
    match &vd.value {
        Expr::Unary { expr, .. } => assert!(matches!(expr.as_ref(), Expr::Grouping(_))),
        other => panic!("unexpected: {:?}", other),
    }
}

#[test]
fn test_array_type_and_literal() {
    let prog = parse("let a: i32[] = [1, 2, 3]\n");
    let Stmt::VarDecl(vd) = &prog.items[0] else { panic!() };
    assert_eq!(
        vd.ty,
        Some(TypeAnnotation { base: BaseType::Array(Box::new(BaseType::I32)), nullable: false })
    );
    match &vd.value {
        Expr::ArrayLit { elements, .. } => assert_eq!(elements.len(), 3),
        other => panic!("unexpected: {:?}", other),
    }
}

#[test]
fn chained_assignment_is_refused() {
    let msg = parse_err("var a = 1\nvar b = 2\na = b = 3\n");
    assert!(msg.starts_with("Parse error at 3:7: "), "{msg}");
}

#[test]
fn assignment_inside_expression_is_refused() {
    parse_err("var a = 1\nprint(a = 2)\n");
    parse_err("var a = 1\nvar b = (a = 2)\n");
    parse_err("var a = 1\nlet c = a += 1\n");
}

#[test]
fn assignment_statement_value_is_an_expression() {
    let prog = parse("var a = 1\na = a + 2 * 3\n");
    match &prog.items[1] {
        Stmt::Expr(Expr::Assign { op, target, value, .. }) => {
            assert_eq!(*op, AssignOp::Assign);
            assert!(matches!(**target, Expr::Ident(ref n) if n == "a"));
            assert!(matches!(**value, Expr::Binary { op: BinaryOp::Add, .. }));
        }
        other => panic!("unexpected: {:?}", other),
    }
}

#[test]
fn parsed_programs_assign_only_to_lvalues() {
    let prog = parse("class P:\n    pub x: i32\nfn main() -> i32:\n    var p = new P()\n    p.x = 1\n    var a = [1, 2]\n    a[0] += p.x\n    return a[0]\n");
    assert!(assignments_ok(&prog));
}

#[test]
fn assignment_to_a_literal_is_detected() {
    let bad = Program {
        items: vec![Stmt::Expr(Expr::Assign {
            op: AssignOp::Assign,
            target: Box::new(Expr::IntLit(1)),
            value: Box::new(Expr::IntLit(2)),
            line: 1,
        })],
    };
    assert!(!assignments_ok(&bad));
    let nested = Program {
        items: vec![Stmt::Expr(Expr::Binary {
            op: BinaryOp::Add,
            lhs: Box::new(Expr::IntLit(1)),
            rhs: Box::new(Expr::Assign {
                op: AssignOp::Assign,
                target: Box::new(Expr::Grouping(Box::new(Expr::Ident("a".to_string())))),
                value: Box::new(Expr::IntLit(2)),
                line: 1,
            }),
            line: 1,
        })],
    };
    assert!(!assignments_ok(&nested));
}

#[test]
fn semicolon_separates_statements_on_one_line() {
    let p = parse("let x = 1; let y = 2\nlet z = 3;\n");
    assert_eq!(p.items.len(), 3);
    let names: Vec<String> = p
        .items
        .iter()
        .map(|s| match s {
            Stmt::VarDecl(v) => v.name.clone(),
            _ => panic!("expected a declaration"),
        })
        .collect();
    assert_eq!(names, vec!["x", "y", "z"]);
    match &p.items[1] {
        Stmt::VarDecl(v) => assert_eq!(v.value, Expr::IntLit(2)),
        _ => unreachable!(),
    }
    let q = parse("fn f() -> i32:\n    let a = 1; return a\n");
    match &q.items[0] {
        Stmt::FuncDecl(f) => assert_eq!(f.body.len(), 2),
        _ => panic!("expected a function"),
    }
}

#[test]
fn test_exact_parse_error_messages() {
    assert_eq!(
        parse_err("if x\n    let y = 1\n"),
        "Parse error at 1:5: ':'를(을) 기대했지만 Newline를 발견했습니다"
    );
    assert_eq!(
        parse_err("1 + 2 = 3\n"),
        "Parse error at 1:7: 대입 연산자의 좌변은 변수, 필드 또는 인덱스 표현식이어야 합니다"
    );
    assert_eq!(parse_err("let x = )\n"), "Parse error at 1:9: 표현식을 기대했지만 RParen를 발견했습니다");
    assert_eq!(parse_err("let x: 5 = 1\n"), "Parse error at 1:8: 타입 이름을 기대했습니다");
    assert_eq!(parse_err("let x = 1 let y = 2\n"), "Parse error at 1:11: 줄바꿈(NEWLINE)을 기대했습니다");
    assert_eq!(parse_err("let = 1\n"), "Parse error at 1:5: 변수 이름를(을) 기대했습니다");
}
