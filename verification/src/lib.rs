//! A backend code generator: lowers a three-address intermediate
//! representation to assembly text for small register machines.
//!
//! The front end hands over functions whose operands are already physical
//! register indices, and the global variables. [`gen_asm::gen_asm`] and
//! [`gen_x86::gen_x86`] turn them into assembly text for the two machines
//! that [`target::Target`] describes.

use vstd::prelude::*;

pub mod codegen;
pub mod gen_asm;
pub mod gen_x86;
pub mod ir;
pub mod laws;
pub mod program;
pub mod target;
pub mod text;

verus! {

/// The kind of a token.
#[allow(clippy::upper_case_acronyms)]
#[derive(Debug, PartialEq, Clone)]
pub enum TokenType {
    /// Number literal.
    Num(i32),
    /// String literal, with its length.
    Str(String, usize),
    /// Character literal.
    CharLiteral(String),
    /// Identifier.
    Ident(String),
    /// Parameter of a function-like macro.
    Param(usize),
    /// `->`
    Arrow,
    /// `extern`
    Extern,
    /// `typedef`
    Typedef,
    /// `int`
    Int,
    /// `char`
    Char,
    /// `void`
    Void,
    /// `struct`
    Struct,
    /// `+`
    Plus,
    /// `-`
    Minus,
    /// `*`
    Mul,
    /// `/`
    Div,
    /// `&`
    And,
    /// `.`
    Dot,
    /// `,`
    Comma,
    /// `!`
    Exclamation,
    /// `?`
    Question,
    /// `|`
    VerticalBar,
    /// `^`
    Hat,
    /// `:`
    Colon,
    /// `#`
    HashMark,
    /// `if`
    If,
    /// `else`
    Else,
    /// `for`
    For,
    /// `do`
    Do,
    /// `while`
    While,
    /// `break`
    Break,
    /// `==`
    EQ,
    /// `!=`
    NE,
    /// `<=`
    LE,
    /// `>=`
    GE,
    /// `;`
    Semicolon,
    /// `(`
    LeftParen,
    /// `)`
    RightParen,
    /// `[`
    LeftBracket,
    /// `]`
    RightBracket,
    /// `{`
    LeftBrace,
    /// `}`
    RightBrace,
    /// `<`
    LeftAngleBracket,
    /// `>`
    RightAngleBracket,
    /// `=`
    Equal,
    /// `||`
    Logor,
    /// `&&`
    Logand,
    /// `<<`
    SHL,
    /// `++`
    Inc,
    /// `--`
    Dec,
    /// `*=`
    MulEQ,
    /// `/=`
    DivEQ,
    /// `%=`
    ModEQ,
    /// `+=`
    AddEQ,
    /// `-=`
    SubEQ,
    /// `<<=`
    ShlEQ,
    /// `>>=`
    ShrEQ,
    /// `&=`
    BitandEQ,
    /// `^=`
    XorEQ,
    /// `|=`
    BitorEQ,
    /// `>>`
    SHR,
    /// `%`
    Mod,
    /// `return`
    Return,
    /// `outchar`
    Outchar,
    /// `inchar`
    Inchar,
    /// `sizeof`
    Sizeof,
    /// `_Alignof`
    Alignof,
    /// End of line; seen by the preprocessor only.
    NewLine,
}

/// The kind of a character.
#[derive(Debug, PartialEq)]
pub enum CharacterType {
    Whitespace,
    NewLine,
    Alphabetic,
    Digit,
    NonAlphabetic(char),
    Unknown(char),
}

/// The token that the single character `c` is, where it is one.
pub open spec fn single_letter(c: char) -> Option<TokenType> {
    if c == '+' {
        Some(TokenType::Plus)
    } else if c == '-' {
        Some(TokenType::Minus)
    } else if c == '*' {
        Some(TokenType::Mul)
    } else if c == '/' {
        Some(TokenType::Div)
    } else if c == '&' {
        Some(TokenType::And)
    } else if c == ';' {
        Some(TokenType::Semicolon)
    } else if c == '=' {
        Some(TokenType::Equal)
    } else if c == '(' {
        Some(TokenType::LeftParen)
    } else if c == ')' {
        Some(TokenType::RightParen)
    } else if c == '[' {
        Some(TokenType::LeftBracket)
    } else if c == ']' {
        Some(TokenType::RightBracket)
    } else if c == '{' {
        Some(TokenType::LeftBrace)
    } else if c == '}' {
        Some(TokenType::RightBrace)
    } else if c == '<' {
        Some(TokenType::LeftAngleBracket)
    } else if c == '>' {
        Some(TokenType::RightAngleBracket)
    } else if c == ',' {
        Some(TokenType::Comma)
    } else if c == '.' {
        Some(TokenType::Dot)
    } else if c == '!' {
        Some(TokenType::Exclamation)
    } else if c == '?' {
        Some(TokenType::Question)
    } else if c == '|' {
        Some(TokenType::VerticalBar)
    } else if c == '^' {
        Some(TokenType::Hat)
    } else if c == '%' {
        Some(TokenType::Mod)
    } else if c == ':' {
        Some(TokenType::Colon)
    } else if c == '#' {
        Some(TokenType::HashMark)
    } else {
        None
    }
}

impl TokenType {
    /// The token of a single punctuation character, or `None` where `c` is
    /// not one.
    pub fn new_single_letter(c: char) -> (r: Option<Self>)
        ensures
            r == single_letter(c),
    {
        match c {
            '+' => Some(TokenType::Plus),
            '-' => Some(TokenType::Minus),
            '*' => Some(TokenType::Mul),
            '/' => Some(TokenType::Div),
            '&' => Some(TokenType::And),
            ';' => Some(TokenType::Semicolon),
            '=' => Some(TokenType::Equal),
            '(' => Some(TokenType::LeftParen),
            ')' => Some(TokenType::RightParen),
            '[' => Some(TokenType::LeftBracket),
            ']' => Some(TokenType::RightBracket),
            '{' => Some(TokenType::LeftBrace),
            '}' => Some(TokenType::RightBrace),
            '<' => Some(TokenType::LeftAngleBracket),
            '>' => Some(TokenType::RightAngleBracket),
            ',' => Some(TokenType::Comma),
            '.' => Some(TokenType::Dot),
            '!' => Some(TokenType::Exclamation),
            '?' => Some(TokenType::Question),
            '|' => Some(TokenType::VerticalBar),
            '^' => Some(TokenType::Hat),
            '%' => Some(TokenType::Mod),
            ':' => Some(TokenType::Colon),
            '#' => Some(TokenType::HashMark),
            _ => None,
        }
    }
}

/// The shape of a type.
#[derive(Debug)]
pub enum Ctype {
    Int,
    Char,
    Void,
    /// Pointer to a type.
    Ptr(Box<Type>),
    /// Array of a type, with its length.
    Ary(Box<Type>, usize),
    /// Structure, with the types of its members in order.
    Struct(Vec<Type>),
    /// Function that returns a type.
    Func(Box<Type>),
}

impl Default for Ctype {
    fn default() -> (c: Ctype)
        ensures
            c == Ctype::Int,
    {
        Ctype::Int
    }
}

/// A type with its size and alignment in words.
#[derive(Debug)]
pub struct Type {
    pub ty: Ctype,
    pub size: usize,
    pub align: usize,
}

impl Default for Type {
    fn default() -> (t: Type)
        ensures
            t == (Type { ty: Ctype::Int, size: 1, align: 1 }),
    {
        Type { ty: Ctype::default(), size: 1, align: 1 }
    }
}

/// Where a variable lives.
#[derive(Debug, Clone)]
pub enum Scope {
    /// In the frame, at an offset.
    Local(usize),
    /// In the data section: initialiser (empty where there is none), length
    /// in words, and whether the variable is only declared here and defined
    /// elsewhere.
    Global(String, usize, bool),
}

/// A variable: its type, its name, and where it lives.
#[derive(Debug)]
pub struct Var {
    pub ty: Box<Type>,
    pub name: String,
    pub scope: Scope,
}

impl Var {
    /// A variable of type `ty`, named `name`, that lives in `scope`.
    pub fn new(ty: Box<Type>, name: String, scope: Scope) -> (v: Self)
        ensures
            v.ty == ty,
            v.name == name,
            v.scope == scope,
    {
        Var { ty, name, scope }
    }

    /// A global variable of type `ty`, named `name`, with the initialiser
    /// `data` and the length `len`.
    pub fn new_global(ty: Box<Type>, name: String, data: String, len: usize, is_extern: bool) -> (v:
        Self)
        ensures
            v.ty == ty,
            v.name == name,
            v.scope == Scope::Global(data, len, is_extern),
    {
        Var::new(ty, name, Scope::Global(data, len, is_extern))
    }
}

} // verus!
