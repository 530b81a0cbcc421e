use vstd::prelude::*;

verus! {

/// The lexical category of a token.
///
/// `StrLit` and `NumLit` are the two literal-bearing kinds; every other kind
/// carries only its lexeme.
#[derive(Clone, Copy, PartialEq, Eq, Structural, Debug)]
pub enum TokenType {
    LeftParen,
    RightParen,
    LeftBrace,
    RightBrace,
    Comma,
    Dot,
    Minus,
    Plus,
    Semicolon,
    Star,
    Slash,
    Bang,
    BangEqual,
    Equal,
    EqualEqual,
    Less,
    LessEqual,
    Greater,
    GreaterEqual,
    StrLit,
    NumLit,
    Identifier,
    And,
    Class,
    Else,
    False,
    Fun,
    For,
    If,
    Nil,
    Or,
    Print,
    Return,
    Super,
    This,
    True,
    Var,
    While,
    Eof,
}

/// The decoded payload of a literal token: either the text of a string
/// literal (the characters between its quotes) or the IEEE-754 double bit
/// pattern of a number literal.
#[derive(Clone, Debug)]
pub enum Literal {
    Text(String),
    Number(u64),
}

/// Ghost image of a `Literal`.
pub ghost enum LiteralView {
    Text(Seq<char>),
    Number(u64),
}

impl View for Literal {
    type V = LiteralView;

    open spec fn view(&self) -> LiteralView {
        match self {
            Literal::Text(s) => LiteralView::Text(s@),
            Literal::Number(b) => LiteralView::Number(*b),
        }
    }
}

/// The ghost image of an optional literal payload.
pub open spec fn view_opt_literal(o: Option<Literal>) -> Option<LiteralView> {
    match o {
        Option::Some(l) => Option::Some(l@),
        Option::None => Option::None,
    }
}

/// One lexical unit: its kind, the exact source substring it covers, the
/// decoded payload for literal kinds, and the 1-based source line that was
/// active at the start of the lexeme.
#[derive(Clone, Debug)]
pub struct Token {
    pub token_type: TokenType,
    pub lexeme: String,
    pub literal: Option<Literal>,
    pub line: usize,
}

/// Ghost image of a `Token`.
pub ghost struct TokenView {
    pub token_type: TokenType,
    pub lexeme: Seq<char>,
    pub literal: Option<LiteralView>,
    pub line: nat,
}

impl View for Token {
    type V = TokenView;

    open spec fn view(&self) -> TokenView {
        TokenView {
            token_type: self.token_type,
            lexeme: self.lexeme@,
            literal: match self.literal {
                Option::Some(l) => Option::Some(l@),
                Option::None => Option::None,
            },
            line: self.line as nat,
        }
    }
}

impl Token {
    pub fn new(token_type: TokenType, lexeme: String, literal: Option<Literal>, line: usize) -> (t:
        Token)
        ensures
            t@ == (TokenView {
                token_type,
                lexeme: lexeme@,
                literal: match literal {
                    Option::Some(l) => Option::Some(l@),
                    Option::None => Option::None,
                },
                line: line as nat,
            }),
    {
        Token { token_type, lexeme, literal, line }
    }

    /// A copy of this token that provably keeps its image.
    pub fn duplicate(&self) -> (t: Token)
        ensures
            t@ == self@,
    {
        let literal = match &self.literal {
            Option::Some(Literal::Text(s)) => Option::Some(Literal::Text(s.clone())),
            Option::Some(Literal::Number(b)) => Option::Some(Literal::Number(*b)),
            Option::None => Option::None,
        };
        Token { token_type: self.token_type, lexeme: self.lexeme.clone(), literal, line: self.line }
    }
}

/// The text a token kind shows in diagnostics.
pub open spec fn spec_kind_text(t: TokenType) -> Seq<char> {
    match t {
        TokenType::LeftParen => "LeftParen"@,
        TokenType::RightParen => "RightParen"@,
        TokenType::LeftBrace => "LeftBrace"@,
        TokenType::RightBrace => "RightBrace"@,
        TokenType::Comma => "Comma"@,
        TokenType::Dot => "Dot"@,
        TokenType::Minus => "Minus"@,
        TokenType::Plus => "Plus"@,
        TokenType::Semicolon => "Semicolon"@,
        TokenType::Star => "Star"@,
        TokenType::Slash => "Slash"@,
        TokenType::Bang => "Bang"@,
        TokenType::BangEqual => "BangEqual"@,
        TokenType::Equal => "Equal"@,
        TokenType::EqualEqual => "EqualEqual"@,
        TokenType::Less => "Less"@,
        TokenType::LessEqual => "LessEqual"@,
        TokenType::Greater => "Greater"@,
        TokenType::GreaterEqual => "GreaterEqual"@,
        TokenType::StrLit => "String"@,
        TokenType::NumLit => "Number"@,
        TokenType::Identifier => "Identifier"@,
        TokenType::And => "And"@,
        TokenType::Class => "Class"@,
        TokenType::Else => "Else"@,
        TokenType::False => "False"@,
        TokenType::Fun => "Fun"@,
        TokenType::For => "For"@,
        TokenType::If => "If"@,
        TokenType::Nil => "Nil"@,
        TokenType::Or => "Or"@,
        TokenType::Print => "Print"@,
        TokenType::Return => "Return"@,
        TokenType::Super => "Super"@,
        TokenType::This => "This"@,
        TokenType::True => "True"@,
        TokenType::Var => "Var"@,
        TokenType::While => "While"@,
        TokenType::Eof => "EOF"@,
    }
}

impl TokenType {
    /// The text this kind shows in diagnostics.
    pub fn kind_text(&self) -> (s: &'static str)
        ensures
            s@ == spec_kind_text(*self),
    {
        match self {
            TokenType::LeftParen => "LeftParen",
            TokenType::RightParen => "RightParen",
            TokenType::LeftBrace => "LeftBrace",
            TokenType::RightBrace => "RightBrace",
            TokenType::Comma => "Comma",
            TokenType::Dot => "Dot",
            TokenType::Minus => "Minus",
            TokenType::Plus => "Plus",
            TokenType::Semicolon => "Semicolon",
            TokenType::Star => "Star",
            TokenType::Slash => "Slash",
            TokenType::Bang => "Bang",
            TokenType::BangEqual => "BangEqual",
            TokenType::Equal => "Equal",
            TokenType::EqualEqual => "EqualEqual",
            TokenType::Less => "Less",
            TokenType::LessEqual => "LessEqual",
            TokenType::Greater => "Greater",
            TokenType::GreaterEqual => "GreaterEqual",
            TokenType::StrLit => "String",
            TokenType::NumLit => "Number",
            TokenType::Identifier => "Identifier",
            TokenType::And => "And",
            TokenType::Class => "Class",
            TokenType::Else => "Else",
            TokenType::False => "False",
            TokenType::Fun => "Fun",
            TokenType::For => "For",
            TokenType::If => "If",
            TokenType::Nil => "Nil",
            TokenType::Or => "Or",
            TokenType::Print => "Print",
            TokenType::Return => "Return",
            TokenType::Super => "Super",
            TokenType::This => "This",
            TokenType::True => "True",
            TokenType::Var => "Var",
            TokenType::While => "While",
            TokenType::Eof => "EOF",
        }
    }
}

} // verus!
