use vstd::prelude::*;

use crate::text::{char_text, decimal, i64_text, push_str, text};

verus! {

/// The decimal text of an integer, with `-` before a negative one.
pub open spec fn signed_decimal(n: int) -> Seq<char> {
    if n >= 0 {
        decimal(n as nat)
    } else {
        seq!['-'] + decimal((-n) as nat)
    }
}

/// The kinds of tokens produced by the lexer.
///
/// A floating-point literal is kept as its decimal source text (`digits.digits`);
/// the value is read from it only where a float is needed.
#[derive(Debug, Clone, PartialEq)]
pub enum TokenKind {
    IntLit(i64),
    FloatLit(String),
    StringLit(String),
    CharLit(char),
    BoolLit(bool),
    Ident(String),
    Class,
    SelfKw,
    New,
    Let,
    Var,
    Const,
    Fn,
    Return,
    If,
    Elif,
    Else,
    While,
    For,
    In,
    Break,
    Continue,
    Null,
    Import,
    As,
    Pub,
    Priv,
    And,
    Or,
    Not,
    TyI8,
    TyI16,
    TyI32,
    TyI64,
    TyU8,
    TyU16,
    TyU32,
    TyU64,
    TyF32,
    TyF64,
    TyBool,
    TyStr,
    TyChar,
    TyVoid,
    Plus,
    Minus,
    Star,
    Slash,
    Percent,
    Assign,
    PlusAssign,
    MinusAssign,
    StarAssign,
    SlashAssign,
    Eq,
    NotEq,
    Lt,
    LtEq,
    Gt,
    GtEq,
    Bang,
    Question,
    Arrow,
    Colon,
    Comma,
    Dot,
    Semicolon,
    LParen,
    RParen,
    LBracket,
    RBracket,
    Newline,
    Indent,
    Dedent,
    Eof,
}

/// The mathematical view of a token kind: text payloads become character sequences,
/// every other kind stands for itself.
pub enum KindView {
    Float(Seq<char>),
    Str(Seq<char>),
    Name(Seq<char>),
    Plain(TokenKind),
}

impl View for TokenKind {
    type V = KindView;

    open spec fn view(&self) -> KindView {
        match self {
            TokenKind::FloatLit(s) => KindView::Float(s@),
            TokenKind::StringLit(s) => KindView::Str(s@),
            TokenKind::Ident(s) => KindView::Name(s@),
            _ => KindView::Plain(*self),
        }
    }
}

impl TokenKind {
    /// A copy of this kind with the same view.
    pub fn duplicate(&self) -> (r: TokenKind)
        ensures
            r@ == self@,
            r == *self,
    {
        match self {
            TokenKind::IntLit(v) => TokenKind::IntLit(*v),
            TokenKind::FloatLit(s) => TokenKind::FloatLit(s.clone()),
            TokenKind::StringLit(s) => TokenKind::StringLit(s.clone()),
            TokenKind::CharLit(c) => TokenKind::CharLit(*c),
            TokenKind::BoolLit(b) => TokenKind::BoolLit(*b),
            TokenKind::Ident(s) => TokenKind::Ident(s.clone()),
            TokenKind::Class => TokenKind::Class,
            TokenKind::SelfKw => TokenKind::SelfKw,
            TokenKind::New => TokenKind::New,
            TokenKind::Let => TokenKind::Let,
            TokenKind::Var => TokenKind::Var,
            TokenKind::Const => TokenKind::Const,
            TokenKind::Fn => TokenKind::Fn,
            TokenKind::Return => TokenKind::Return,
            TokenKind::If => TokenKind::If,
            TokenKind::Elif => TokenKind::Elif,
            TokenKind::Else => TokenKind::Else,
            TokenKind::While => TokenKind::While,
            TokenKind::For => TokenKind::For,
            TokenKind::In => TokenKind::In,
            TokenKind::Break => TokenKind::Break,
            TokenKind::Continue => TokenKind::Continue,
            TokenKind::Null => TokenKind::Null,
            TokenKind::Import => TokenKind::Import,
            TokenKind::As => TokenKind::As,
            TokenKind::Pub => TokenKind::Pub,
            TokenKind::Priv => TokenKind::Priv,
            TokenKind::And => TokenKind::And,
            TokenKind::Or => TokenKind::Or,
            TokenKind::Not => TokenKind::Not,
            TokenKind::TyI8 => TokenKind::TyI8,
            TokenKind::TyI16 => TokenKind::TyI16,
            TokenKind::TyI32 => TokenKind::TyI32,
            TokenKind::TyI64 => TokenKind::TyI64,
            TokenKind::TyU8 => TokenKind::TyU8,
            TokenKind::TyU16 => TokenKind::TyU16,
            TokenKind::TyU32 => TokenKind::TyU32,
            TokenKind::TyU64 => TokenKind::TyU64,
            TokenKind::TyF32 => TokenKind::TyF32,
            TokenKind::TyF64 => TokenKind::TyF64,
            TokenKind::TyBool => TokenKind::TyBool,
            TokenKind::TyStr => TokenKind::TyStr,
            TokenKind::TyChar => TokenKind::TyChar,
            TokenKind::TyVoid => TokenKind::TyVoid,
            TokenKind::Plus => TokenKind::Plus,
            TokenKind::Minus => TokenKind::Minus,
            TokenKind::Star => TokenKind::Star,
            TokenKind::Slash => TokenKind::Slash,
            TokenKind::Percent => TokenKind::Percent,
            TokenKind::Assign => TokenKind::Assign,
            TokenKind::PlusAssign => TokenKind::PlusAssign,
            TokenKind::MinusAssign => TokenKind::MinusAssign,
            TokenKind::StarAssign => TokenKind::StarAssign,
            TokenKind::SlashAssign => TokenKind::SlashAssign,
            TokenKind::Eq => TokenKind::Eq,
            TokenKind::NotEq => TokenKind::NotEq,
            TokenKind::Lt => TokenKind::Lt,
            TokenKind::LtEq => TokenKind::LtEq,
            TokenKind::Gt => TokenKind::Gt,
            TokenKind::GtEq => TokenKind::GtEq,
            TokenKind::Bang => TokenKind::Bang,
            TokenKind::Question => TokenKind::Question,
            TokenKind::Arrow => TokenKind::Arrow,
            TokenKind::Colon => TokenKind::Colon,
            TokenKind::Comma => TokenKind::Comma,
            TokenKind::Dot => TokenKind::Dot,
            TokenKind::Semicolon => TokenKind::Semicolon,
            TokenKind::LParen => TokenKind::LParen,
            TokenKind::RParen => TokenKind::RParen,
            TokenKind::LBracket => TokenKind::LBracket,
            TokenKind::RBracket => TokenKind::RBracket,
            TokenKind::Newline => TokenKind::Newline,
            TokenKind::Indent => TokenKind::Indent,
            TokenKind::Dedent => TokenKind::Dedent,
            TokenKind::Eof => TokenKind::Eof,
        }
    }
}

#[derive(Debug, Clone, PartialEq)]
pub struct Token {
    pub kind: TokenKind,
    pub line: usize,
    pub col: usize,
}

/// The view of a token: its kind's view and its position.
pub struct TokenView {
    pub kind: KindView,
    pub line: int,
    pub col: int,
}

impl View for Token {
    type V = TokenView;

    open spec fn view(&self) -> TokenView {
        TokenView { kind: self.kind@, line: self.line as int, col: self.col as int }
    }
}

/// The views of a sequence of tokens.
pub open spec fn tokens_view(ts: Seq<Token>) -> Seq<TokenView> {
    ts.map_values(|t: Token| t@)
}

impl Token {
    pub fn new(kind: TokenKind, line: usize, col: usize) -> (t: Self)
        ensures
            t.kind == kind,
            t.line == line,
            t.col == col,
    {
        Token { kind, line, col }
    }

    /// A copy of this token with the same view.
    pub fn duplicate(&self) -> (r: Token)
        ensures
            r@ == self@,
            r == *self,
    {
        Token { kind: self.kind.duplicate(), line: self.line, col: self.col }
    }
}

/// The keyword (or boolean literal) that a word spells, if any.
pub open spec fn keyword_kind(s: Seq<char>) -> Option<TokenKind> {
    if s == "class"@ { Some(TokenKind::Class) }
    else if s == "self"@ { Some(TokenKind::SelfKw) }
    else if s == "new"@ { Some(TokenKind::New) }
    else if s == "let"@ { Some(TokenKind::Let) }
    else if s == "var"@ { Some(TokenKind::Var) }
    else if s == "const"@ { Some(TokenKind::Const) }
    else if s == "fn"@ { Some(TokenKind::Fn) }
    else if s == "return"@ { Some(TokenKind::Return) }
    else if s == "if"@ { Some(TokenKind::If) }
    else if s == "elif"@ { Some(TokenKind::Elif) }
    else if s == "else"@ { Some(TokenKind::Else) }
    else if s == "while"@ { Some(TokenKind::While) }
    else if s == "for"@ { Some(TokenKind::For) }
    else if s == "in"@ { Some(TokenKind::In) }
    else if s == "break"@ { Some(TokenKind::Break) }
    else if s == "continue"@ { Some(TokenKind::Continue) }
    else if s == "null"@ { Some(TokenKind::Null) }
    else if s == "import"@ { Some(TokenKind::Import) }
    else if s == "as"@ { Some(TokenKind::As) }
    else if s == "pub"@ { Some(TokenKind::Pub) }
    else if s == "priv"@ { Some(TokenKind::Priv) }
    else if s == "and"@ { Some(TokenKind::And) }
    else if s == "or"@ { Some(TokenKind::Or) }
    else if s == "not"@ { Some(TokenKind::Not) }
    else if s == "true"@ { Some(TokenKind::BoolLit(true)) }
    else if s == "false"@ { Some(TokenKind::BoolLit(false)) }
    else if s == "i8"@ { Some(TokenKind::TyI8) }
    else if s == "i16"@ { Some(TokenKind::TyI16) }
    else if s == "i32"@ { Some(TokenKind::TyI32) }
    else if s == "i64"@ { Some(TokenKind::TyI64) }
    else if s == "u8"@ { Some(TokenKind::TyU8) }
    else if s == "u16"@ { Some(TokenKind::TyU16) }
    else if s == "u32"@ { Some(TokenKind::TyU32) }
    else if s == "u64"@ { Some(TokenKind::TyU64) }
    else if s == "f32"@ { Some(TokenKind::TyF32) }
    else if s == "f64"@ { Some(TokenKind::TyF64) }
    else if s == "bool"@ { Some(TokenKind::TyBool) }
    else if s == "str"@ { Some(TokenKind::TyStr) }
    else if s == "char"@ { Some(TokenKind::TyChar) }
    else if s == "void"@ { Some(TokenKind::TyVoid) }
    else { None }
}

/// The characters of a string slice, in order.
pub fn chars_of(s: &str) -> (v: Vec<char>)
    ensures
        v@ == s@,
{
    let mut v: Vec<char> = Vec::new();
    for c in it: s.chars()
        invariant
            v@ == it.seq().take(it.index() as int),
    {
        v.push(c);
    }
    v
}

/// Whether two character vectors hold the same characters.
pub fn chars_eq(a: &Vec<char>, b: &Vec<char>) -> (r: bool)
    ensures
        r == (a@ == b@),
{
    if a.len() != b.len() {
        return false;
    }
    let mut i: usize = 0;
    while i < a.len()
        invariant
            a.len() == b.len(),
            i <= a.len(),
            forall|j: int| 0 <= j < i ==> a@[j] == b@[j],
        decreases a.len() - i,
    {
        if a[i] != b[i] {
            return false;
        }
        i += 1;
    }
    assert(a@ =~= b@);
    true
}

/// Whether two string slices hold the same characters.
pub fn text_eq(a: &str, b: &str) -> (r: bool)
    ensures
        r == (a@ == b@),
{
    let va = chars_of(a);
    let vb = chars_of(b);
    chars_eq(&va, &vb)
}

pub fn lookup_keyword(ident: &str) -> (r: Option<TokenKind>)
    ensures
        r == keyword_kind(ident@),
{
    if text_eq(ident, "class") { Some(TokenKind::Class) }
    else if text_eq(ident, "self") { Some(TokenKind::SelfKw) }
    else if text_eq(ident, "new") { Some(TokenKind::New) }
    else if text_eq(ident, "let") { Some(TokenKind::Let) }
    else if text_eq(ident, "var") { Some(TokenKind::Var) }
    else if text_eq(ident, "const") { Some(TokenKind::Const) }
    else if text_eq(ident, "fn") { Some(TokenKind::Fn) }
    else if text_eq(ident, "return") { Some(TokenKind::Return) }
    else if text_eq(ident, "if") { Some(TokenKind::If) }
    else if text_eq(ident, "elif") { Some(TokenKind::Elif) }
    else if text_eq(ident, "else") { Some(TokenKind::Else) }
    else if text_eq(ident, "while") { Some(TokenKind::While) }
    else if text_eq(ident, "for") { Some(TokenKind::For) }
    else if text_eq(ident, "in") { Some(TokenKind::In) }
    else if text_eq(ident, "break") { Some(TokenKind::Break) }
    else if text_eq(ident, "continue") { Some(TokenKind::Continue) }
    else if text_eq(ident, "null") { Some(TokenKind::Null) }
    else if text_eq(ident, "import") { Some(TokenKind::Import) }
    else if text_eq(ident, "as") { Some(TokenKind::As) }
    else if text_eq(ident, "pub") { Some(TokenKind::Pub) }
    else if text_eq(ident, "priv") { Some(TokenKind::Priv) }
    else if text_eq(ident, "and") { Some(TokenKind::And) }
    else if text_eq(ident, "or") { Some(TokenKind::Or) }
    else if text_eq(ident, "not") { Some(TokenKind::Not) }
    else if text_eq(ident, "true") { Some(TokenKind::BoolLit(true)) }
    else if text_eq(ident, "false") { Some(TokenKind::BoolLit(false)) }
    else if text_eq(ident, "i8") { Some(TokenKind::TyI8) }
    else if text_eq(ident, "i16") { Some(TokenKind::TyI16) }
    else if text_eq(ident, "i32") { Some(TokenKind::TyI32) }
    else if text_eq(ident, "i64") { Some(TokenKind::TyI64) }
    else if text_eq(ident, "u8") { Some(TokenKind::TyU8) }
    else if text_eq(ident, "u16") { Some(TokenKind::TyU16) }
    else if text_eq(ident, "u32") { Some(TokenKind::TyU32) }
    else if text_eq(ident, "u64") { Some(TokenKind::TyU64) }
    else if text_eq(ident, "f32") { Some(TokenKind::TyF32) }
    else if text_eq(ident, "f64") { Some(TokenKind::TyF64) }
    else if text_eq(ident, "bool") { Some(TokenKind::TyBool) }
    else if text_eq(ident, "str") { Some(TokenKind::TyStr) }
    else if text_eq(ident, "char") { Some(TokenKind::TyChar) }
    else if text_eq(ident, "void") { Some(TokenKind::TyVoid) }
    else { None }
}


/// The position of a kind's variant in the declaration order.
pub open spec fn kind_tag(k: TokenKind) -> int {
    match k {
        TokenKind::IntLit(_) => 0,
        TokenKind::FloatLit(_) => 1,
        TokenKind::StringLit(_) => 2,
        TokenKind::CharLit(_) => 3,
        TokenKind::BoolLit(_) => 4,
        TokenKind::Ident(_) => 5,
        TokenKind::Class => 6,
        TokenKind::SelfKw => 7,
        TokenKind::New => 8,
        TokenKind::Let => 9,
        TokenKind::Var => 10,
        TokenKind::Const => 11,
        TokenKind::Fn => 12,
        TokenKind::Return => 13,
        TokenKind::If => 14,
        TokenKind::Elif => 15,
        TokenKind::Else => 16,
        TokenKind::While => 17,
        TokenKind::For => 18,
        TokenKind::In => 19,
        TokenKind::Break => 20,
        TokenKind::Continue => 21,
        TokenKind::Null => 22,
        TokenKind::Import => 23,
        TokenKind::As => 24,
        TokenKind::Pub => 25,
        TokenKind::Priv => 26,
        TokenKind::And => 27,
        TokenKind::Or => 28,
        TokenKind::Not => 29,
        TokenKind::TyI8 => 30,
        TokenKind::TyI16 => 31,
        TokenKind::TyI32 => 32,
        TokenKind::TyI64 => 33,
        TokenKind::TyU8 => 34,
        TokenKind::TyU16 => 35,
        TokenKind::TyU32 => 36,
        TokenKind::TyU64 => 37,
        TokenKind::TyF32 => 38,
        TokenKind::TyF64 => 39,
        TokenKind::TyBool => 40,
        TokenKind::TyStr => 41,
        TokenKind::TyChar => 42,
        TokenKind::TyVoid => 43,
        TokenKind::Plus => 44,
        TokenKind::Minus => 45,
        TokenKind::Star => 46,
        TokenKind::Slash => 47,
        TokenKind::Percent => 48,
        TokenKind::Assign => 49,
        TokenKind::PlusAssign => 50,
        TokenKind::MinusAssign => 51,
        TokenKind::StarAssign => 52,
        TokenKind::SlashAssign => 53,
        TokenKind::Eq => 54,
        TokenKind::NotEq => 55,
        TokenKind::Lt => 56,
        TokenKind::LtEq => 57,
        TokenKind::Gt => 58,
        TokenKind::GtEq => 59,
        TokenKind::Bang => 60,
        TokenKind::Question => 61,
        TokenKind::Arrow => 62,
        TokenKind::Colon => 63,
        TokenKind::Comma => 64,
        TokenKind::Dot => 65,
        TokenKind::Semicolon => 66,
        TokenKind::LParen => 67,
        TokenKind::RParen => 68,
        TokenKind::LBracket => 69,
        TokenKind::RBracket => 70,
        TokenKind::Newline => 71,
        TokenKind::Indent => 72,
        TokenKind::Dedent => 73,
        TokenKind::Eof => 74,
    }
}

/// Whether a kind has no payload.
pub open spec fn is_unit_kind(k: TokenKind) -> bool {
    kind_tag(k) >= 6
}

impl TokenKind {
    /// The position of this kind's variant in the declaration order.
    pub fn tag(&self) -> (r: u8)
        ensures
            r as int == kind_tag(*self),
    {
        match self {
            TokenKind::IntLit(_) => 0,
            TokenKind::FloatLit(_) => 1,
            TokenKind::StringLit(_) => 2,
            TokenKind::CharLit(_) => 3,
            TokenKind::BoolLit(_) => 4,
            TokenKind::Ident(_) => 5,
            TokenKind::Class => 6,
            TokenKind::SelfKw => 7,
            TokenKind::New => 8,
            TokenKind::Let => 9,
            TokenKind::Var => 10,
            TokenKind::Const => 11,
            TokenKind::Fn => 12,
            TokenKind::Return => 13,
            TokenKind::If => 14,
            TokenKind::Elif => 15,
            TokenKind::Else => 16,
            TokenKind::While => 17,
            TokenKind::For => 18,
            TokenKind::In => 19,
            TokenKind::Break => 20,
            TokenKind::Continue => 21,
            TokenKind::Null => 22,
            TokenKind::Import => 23,
            TokenKind::As => 24,
            TokenKind::Pub => 25,
            TokenKind::Priv => 26,
            TokenKind::And => 27,
            TokenKind::Or => 28,
            TokenKind::Not => 29,
            TokenKind::TyI8 => 30,
            TokenKind::TyI16 => 31,
            TokenKind::TyI32 => 32,
            TokenKind::TyI64 => 33,
            TokenKind::TyU8 => 34,
            TokenKind::TyU16 => 35,
            TokenKind::TyU32 => 36,
            TokenKind::TyU64 => 37,
            TokenKind::TyF32 => 38,
            TokenKind::TyF64 => 39,
            TokenKind::TyBool => 40,
            TokenKind::TyStr => 41,
            TokenKind::TyChar => 42,
            TokenKind::TyVoid => 43,
            TokenKind::Plus => 44,
            TokenKind::Minus => 45,
            TokenKind::Star => 46,
            TokenKind::Slash => 47,
            TokenKind::Percent => 48,
            TokenKind::Assign => 49,
            TokenKind::PlusAssign => 50,
            TokenKind::MinusAssign => 51,
            TokenKind::StarAssign => 52,
            TokenKind::SlashAssign => 53,
            TokenKind::Eq => 54,
            TokenKind::NotEq => 55,
            TokenKind::Lt => 56,
            TokenKind::LtEq => 57,
            TokenKind::Gt => 58,
            TokenKind::GtEq => 59,
            TokenKind::Bang => 60,
            TokenKind::Question => 61,
            TokenKind::Arrow => 62,
            TokenKind::Colon => 63,
            TokenKind::Comma => 64,
            TokenKind::Dot => 65,
            TokenKind::Semicolon => 66,
            TokenKind::LParen => 67,
            TokenKind::RParen => 68,
            TokenKind::LBracket => 69,
            TokenKind::RBracket => 70,
            TokenKind::Newline => 71,
            TokenKind::Indent => 72,
            TokenKind::Dedent => 73,
            TokenKind::Eof => 74,
        }
    }

    /// The text of a kind as `{:?}` shows it: the variant's name, with its payload in
    /// brackets (a number in decimal, a string or name in double quotes, a character
    /// in single quotes).
    pub open spec fn debug_text_spec(self) -> Seq<char> {
        match self {
            TokenKind::IntLit(n) => "IntLit("@ + signed_decimal(n as int) + ")"@,
            TokenKind::FloatLit(t) => "FloatLit("@ + t@ + ")"@,
            TokenKind::StringLit(t) => "StringLit(\""@ + t@ + "\")"@,
            TokenKind::CharLit(c) => "CharLit('"@ + seq![c] + "')"@,
            TokenKind::BoolLit(b) => if b { "BoolLit(true)"@ } else { "BoolLit(false)"@ },
            TokenKind::Ident(t) => "Ident(\""@ + t@ + "\")"@,
            TokenKind::Class => "Class"@,
            TokenKind::SelfKw => "SelfKw"@,
            TokenKind::New => "New"@,
            TokenKind::Let => "Let"@,
            TokenKind::Var => "Var"@,
            TokenKind::Const => "Const"@,
            TokenKind::Fn => "Fn"@,
            TokenKind::Return => "Return"@,
            TokenKind::If => "If"@,
            TokenKind::Elif => "Elif"@,
            TokenKind::Else => "Else"@,
            TokenKind::While => "While"@,
            TokenKind::For => "For"@,
            TokenKind::In => "In"@,
            TokenKind::Break => "Break"@,
            TokenKind::Continue => "Continue"@,
            TokenKind::Null => "Null"@,
            TokenKind::Import => "Import"@,
            TokenKind::As => "As"@,
            TokenKind::Pub => "Pub"@,
            TokenKind::Priv => "Priv"@,
            TokenKind::And => "And"@,
            TokenKind::Or => "Or"@,
            TokenKind::Not => "Not"@,
            TokenKind::TyI8 => "TyI8"@,
            TokenKind::TyI16 => "TyI16"@,
            TokenKind::TyI32 => "TyI32"@,
            TokenKind::TyI64 => "TyI64"@,
            TokenKind::TyU8 => "TyU8"@,
            TokenKind::TyU16 => "TyU16"@,
            TokenKind::TyU32 => "TyU32"@,
            TokenKind::TyU64 => "TyU64"@,
            TokenKind::TyF32 => "TyF32"@,
            TokenKind::TyF64 => "TyF64"@,
            TokenKind::TyBool => "TyBool"@,
            TokenKind::TyStr => "TyStr"@,
            TokenKind::TyChar => "TyChar"@,
            TokenKind::TyVoid => "TyVoid"@,
            TokenKind::Plus => "Plus"@,
            TokenKind::Minus => "Minus"@,
            TokenKind::Star => "Star"@,
            TokenKind::Slash => "Slash"@,
            TokenKind::Percent => "Percent"@,
            TokenKind::Assign => "Assign"@,
            TokenKind::PlusAssign => "PlusAssign"@,
            TokenKind::MinusAssign => "MinusAssign"@,
            TokenKind::StarAssign => "StarAssign"@,
            TokenKind::SlashAssign => "SlashAssign"@,
            TokenKind::Eq => "Eq"@,
            TokenKind::NotEq => "NotEq"@,
            TokenKind::Lt => "Lt"@,
            TokenKind::LtEq => "LtEq"@,
            TokenKind::Gt => "Gt"@,
            TokenKind::GtEq => "GtEq"@,
            TokenKind::Bang => "Bang"@,
            TokenKind::Question => "Question"@,
            TokenKind::Arrow => "Arrow"@,
            TokenKind::Colon => "Colon"@,
            TokenKind::Comma => "Comma"@,
            TokenKind::Dot => "Dot"@,
            TokenKind::Semicolon => "Semicolon"@,
            TokenKind::LParen => "LParen"@,
            TokenKind::RParen => "RParen"@,
            TokenKind::LBracket => "LBracket"@,
            TokenKind::RBracket => "RBracket"@,
            TokenKind::Newline => "Newline"@,
            TokenKind::Indent => "Indent"@,
            TokenKind::Dedent => "Dedent"@,
            TokenKind::Eof => "Eof"@,
        }
    }

    /// The kind as `{:?}` shows it.
    pub fn debug_text(&self) -> (s: String)
        ensures
            s@ == self.debug_text_spec(),
    {
        match self {
            TokenKind::IntLit(n) => {
                let mut s = text("IntLit(");
                push_str(&mut s, i64_text(*n).as_str());
                push_str(&mut s, ")");
                s
            },
            TokenKind::FloatLit(t) => {
                let mut s = text("FloatLit(");
                push_str(&mut s, t.as_str());
                push_str(&mut s, ")");
                s
            },
            TokenKind::StringLit(t) => {
                let mut s = text("StringLit(\"");
                push_str(&mut s, t.as_str());
                push_str(&mut s, "\")");
                s
            },
            TokenKind::CharLit(c) => {
                let mut s = text("CharLit('");
                push_str(&mut s, char_text(*c).as_str());
                push_str(&mut s, "')");
                s
            },
            TokenKind::BoolLit(b) => text(if *b { "BoolLit(true)" } else { "BoolLit(false)" }),
            TokenKind::Ident(t) => {
                let mut s = text("Ident(\"");
                push_str(&mut s, t.as_str());
                push_str(&mut s, "\")");
                s
            },
            TokenKind::Class => text("Class"),
            TokenKind::SelfKw => text("SelfKw"),
            TokenKind::New => text("New"),
            TokenKind::Let => text("Let"),
            TokenKind::Var => text("Var"),
            TokenKind::Const => text("Const"),
            TokenKind::Fn => text("Fn"),
            TokenKind::Return => text("Return"),
            TokenKind::If => text("If"),
            TokenKind::Elif => text("Elif"),
            TokenKind::Else => text("Else"),
            TokenKind::While => text("While"),
            TokenKind::For => text("For"),
            TokenKind::In => text("In"),
            TokenKind::Break => text("Break"),
            TokenKind::Continue => text("Continue"),
            TokenKind::Null => text("Null"),
            TokenKind::Import => text("Import"),
            TokenKind::As => text("As"),
            TokenKind::Pub => text("Pub"),
            TokenKind::Priv => text("Priv"),
            TokenKind::And => text("And"),
            TokenKind::Or => text("Or"),
            TokenKind::Not => text("Not"),
            TokenKind::TyI8 => text("TyI8"),
            TokenKind::TyI16 => text("TyI16"),
            TokenKind::TyI32 => text("TyI32"),
            TokenKind::TyI64 => text("TyI64"),
            TokenKind::TyU8 => text("TyU8"),
            TokenKind::TyU16 => text("TyU16"),
            TokenKind::TyU32 => text("TyU32"),
            TokenKind::TyU64 => text("TyU64"),
            TokenKind::TyF32 => text("TyF32"),
            TokenKind::TyF64 => text("TyF64"),
            TokenKind::TyBool => text("TyBool"),
            TokenKind::TyStr => text("TyStr"),
            TokenKind::TyChar => text("TyChar"),
            TokenKind::TyVoid => text("TyVoid"),
            TokenKind::Plus => text("Plus"),
            TokenKind::Minus => text("Minus"),
            TokenKind::Star => text("Star"),
            TokenKind::Slash => text("Slash"),
            TokenKind::Percent => text("Percent"),
            TokenKind::Assign => text("Assign"),
            TokenKind::PlusAssign => text("PlusAssign"),
            TokenKind::MinusAssign => text("MinusAssign"),
            TokenKind::StarAssign => text("StarAssign"),
            TokenKind::SlashAssign => text("SlashAssign"),
            TokenKind::Eq => text("Eq"),
            TokenKind::NotEq => text("NotEq"),
            TokenKind::Lt => text("Lt"),
            TokenKind::LtEq => text("LtEq"),
            TokenKind::Gt => text("Gt"),
            TokenKind::GtEq => text("GtEq"),
            TokenKind::Bang => text("Bang"),
            TokenKind::Question => text("Question"),
            TokenKind::Arrow => text("Arrow"),
            TokenKind::Colon => text("Colon"),
            TokenKind::Comma => text("Comma"),
            TokenKind::Dot => text("Dot"),
            TokenKind::Semicolon => text("Semicolon"),
            TokenKind::LParen => text("LParen"),
            TokenKind::RParen => text("RParen"),
            TokenKind::LBracket => text("LBracket"),
            TokenKind::RBracket => text("RBracket"),
            TokenKind::Newline => text("Newline"),
            TokenKind::Indent => text("Indent"),
            TokenKind::Dedent => text("Dedent"),
            TokenKind::Eof => text("Eof"),
        }
    }
}

} // verus!
