use javagxc::lexer::token::TokenKind;
use javagxc::lexer::token::TokenKind::{
    Assign, Arrow, BoolLit, Class, Colon, Dedent, Dot, Eof, Fn, Ident, If, Indent, IntLit, LParen, Let,
    Newline, Null, PlusAssign, Question, RParen, Return, SelfKw, StringLit, TyI32,
};
use javagxc::lexer::token::lookup_keyword;
use javagxc::lexer::Lexer;

fn kinds(src: &str) -> Vec<TokenKind> {
    Lexer::new(src)
        .tokenize()
        .unwrap()
        .into_iter()
        .map(|t| t.kind)
        .collect()
}

#[test]
fn test_basic_var_decl() {
    let toks = kinds("let x: i32 = 10\n");
    assert_eq!(
        toks,
        vec![Let, Ident("x".into()), Colon, TyI32, Assign, IntLit(10), Newline, Eof]
    );
}

#[test]
fn test_indent_dedent() {
    let src = "if x:\n    let y = 1\nlet z = 2\n";
    let toks = kinds(src);
    assert_eq!(
        toks,
        vec![
            If, Ident("x".into()), Colon, Newline,
            Indent,
            Let, Ident("y".into()), Assign, IntLit(1), Newline,
            Dedent,
            Let, Ident("z".into()), Assign, IntLit(2), Newline,
            Eof
        ]
    );
}

#[test]
fn test_nested_indent() {
    let src = "class A:\n    fn f(self):\n        return 1\n    return 2\n";
    let toks = kinds(src);
    assert_eq!(
        toks,
        vec![
            Class, Ident("A".into()), Colon, Newline,
            Indent,
            Fn, Ident("f".into()), LParen, SelfKw, RParen, Colon, Newline,
            Indent,
            Return, IntLit(1), Newline,
            Dedent,
            Return, IntLit(2), Newline,
            Dedent,
            Eof
        ]
    );
}

#[test]
fn test_class_and_self() {
    let toks = kinds("self.name = \"Rex\"\n");
    assert_eq!(
        toks,
        vec![SelfKw, Dot, Ident("name".into()), Assign, StringLit("Rex".into()), Newline, Eof]
    );
}

#[test]
fn test_operators() {
    let toks = kinds("a += 1\nb == c\nd -> e\nf: i32?\n");
    assert_eq!(
        toks,
        vec![
            Ident("a".into()), PlusAssign, IntLit(1), Newline,
            Ident("b".into()), TokenKind::Eq, Ident("c".into()), Newline,
            Ident("d".into()), Arrow, Ident("e".into()), Newline,
            Ident("f".into()), Colon, TyI32, Question, Newline,
            Eof
        ]
    );
}

#[test]
fn test_float_literal() {
    let toks = kinds("let ratio = 2.5\n");
    assert_eq!(toks.len(), 6);
    assert_eq!(toks[..3].to_vec(), vec![Let, Ident("ratio".into()), Assign]);
    match &toks[3] {
        TokenKind::FloatLit(text) => assert_eq!(text.parse::<f64>().unwrap(), 2.5),
        other => panic!("expected a float literal, got {:?}", other),
    }
    assert_eq!(toks[4..].to_vec(), vec![Newline, Eof]);
}

#[test]
fn test_comment_and_blank_lines_ignored() {
    let src = "# comment\n\nlet x = 1\n\n# another\nlet y = 2\n";
    let toks = kinds(src);
    assert_eq!(
        toks,
        vec![
            Let, Ident("x".into()), Assign, IntLit(1), Newline,
            Let, Ident("y".into()), Assign, IntLit(2), Newline,
            Eof
        ]
    );
}

#[test]
fn test_bool_and_null() {
    let toks = kinds("let a = true\nlet b = false\nlet c = null\n");
    assert_eq!(
        toks,
        vec![
            Let, Ident("a".into()), Assign, BoolLit(true), Newline,
            Let, Ident("b".into()), Assign, BoolLit(false), Newline,
            Let, Ident("c".into()), Assign, Null, Newline,
            Eof
        ]
    );
}

#[test]
fn test_tab_indent_error() {
    let src = "if x:\n\tlet y = 1\n";
    let result = Lexer::new(src).tokenize();
    assert!(result.is_err());
}

#[test]
fn test_misaligned_indent_error() {
    let src = "if x:\n   let y = 1\n"; // 3칸 (4의 배수 아님)
    let result = Lexer::new(src).tokenize();
    assert!(result.is_err());
}

#[test]
fn test_tokens_always_end_with_eof() {
    for src in ["", "let x = 1", "if a:\n    if b:\n        c\n", "# only a comment\n"] {
        let toks = kinds(src);
        assert_eq!(toks.last(), Some(&Eof), "source: {:?}", src);
    }
}

#[test]
fn test_indents_and_dedents_balance() {
    let toks = kinds("class A:\n    fn f(self):\n        if x:\n            return 1\n");
    let indents = toks.iter().filter(|k| **k == Indent).count();
    let dedents = toks.iter().filter(|k| **k == Dedent).count();
    assert_eq!(indents, 3);
    assert_eq!(dedents, 3);
}

#[test]
fn test_missing_final_newline_is_added() {
    assert_eq!(kinds("let x = 1"), vec![Let, Ident("x".into()), Assign, IntLit(1), Newline, Eof]);
}

#[test]
fn test_unterminated_string_error_position() {
    let err = Lexer::new("let s = \"abc\n").tokenize().unwrap_err();
    assert_eq!(err.line, 1);
    assert!(err.message.contains("닫히지"), "{}", err.message);
    assert!(err.to_string().starts_with("Lex error at 1:"), "{}", err.to_string());
}

#[test]
fn test_unknown_character_error() {
    let err = Lexer::new("let x = $\n").tokenize().unwrap_err();
    assert_eq!((err.line, err.col), (1, 9));
    assert!(err.message.contains("알 수 없는 문자"), "{}", err.message);
}

#[test]
fn test_char_and_escape_literals() {
    let toks = kinds("'a' \"x\\ny\"\n");
    assert_eq!(toks, vec![TokenKind::CharLit('a'), StringLit("x\ny".into()), Newline, Eof]);
}

#[test]
fn test_keyword_lookup() {
    assert_eq!(lookup_keyword("class"), Some(Class));
    assert_eq!(lookup_keyword("i32"), Some(TyI32));
    assert_eq!(lookup_keyword("classy"), None);
}

#[test]
fn test_parenthesised_newlines_are_joined() {
    let toks = kinds("f(1,\n  2)\n");
    assert_eq!(
        toks,
        vec![Ident("f".into()), LParen, IntLit(1), TokenKind::Comma, IntLit(2), RParen, Newline, Eof]
    );
}

#[test]
fn token_kinds_print_as_debug_does() {
    assert_eq!(TokenKind::IntLit(-5).debug_text(), format!("{:?}", TokenKind::IntLit(-5)));
    assert_eq!(TokenKind::Ident("x".to_string()).debug_text(), "Ident(\"x\")");
    assert_eq!(TokenKind::CharLit('a').debug_text(), "CharLit('a')");
    assert_eq!(TokenKind::Arrow.debug_text(), "Arrow");
}

#[test]
fn identifiers_are_ascii() {
    assert!(Lexer::new("é = 1\n").tokenize().is_err());
    assert!(Lexer::new("변수 = 1\n").tokenize().is_err());
    assert!(Lexer::new("_a1B = 1\n").tokenize().is_ok());
}

#[test]
fn test_exact_lex_error_messages() {
    let e = Lexer::new("let s = \"abc\n").tokenize().unwrap_err();
    assert_eq!(e.message, "문자열이 닫히지 않았습니다");
    let e = Lexer::new("let x = $\n").tokenize().unwrap_err();
    assert_eq!((e.line, e.col, e.message.as_str()), (1, 9, "알 수 없는 문자: '$'"));
    let e = Lexer::new("let c = 'ab'\n").tokenize().unwrap_err();
    assert_eq!(e.message, "문자 리터럴은 단일 문자여야 합니다");
    let e = Lexer::new("let s = \"a\\q\"\n").tokenize().unwrap_err();
    assert_eq!(e.message, "알 수 없는 이스케이프: \\q");
    let e = Lexer::new("let n = 99999999999999999999\n").tokenize().unwrap_err();
    assert_eq!(e.message, "잘못된 정수 리터럴");
    let e = Lexer::new("if x:\n   y = 1\n").tokenize().unwrap_err();
    assert_eq!((e.line, e.col, e.message.as_str()), (2, 4, "들여쓰기는 4칸 단위여야 합니다 (현재 3칸)"));
}

#[test]
fn test_eof_only_last_and_prefixes_balanced() {
    let ks = kinds("class A:\n    fn f(self):\n        if x:\n            return\nlet y = 1\n");
    assert_eq!(ks.last(), Some(&Eof));
    assert!(ks[..ks.len() - 1].iter().all(|k| *k != Eof));
    let mut depth: i64 = 0;
    for k in &ks {
        if *k == Indent {
            depth += 1;
        } else if *k == Dedent {
            depth -= 1;
        }
        assert!(depth >= 0);
    }
    assert_eq!(depth, 0);
}
