use vstd::prelude::*;
use crate::span::Span;

verus! {

/// A token together with where it was read.
#[derive(Debug, Clone, PartialEq)]
pub struct TokenInfo {
    pub token: Token,
    pub span: Span,
}

/// A lexical token. A float literal keeps the digits it was written with.
#[derive(Debug, Clone, PartialEq)]
pub enum Token {
    Integer(i32),
    Float(String),
    String(String),
    Identifier(String),
    Assign,
    Plus,
    Minus,
    Asterisk,
    Slash,
    Caret,
    Bang,
    At,
    Hashtag,
    LessThan,
    GreaterThan,
    Equal,
    NotEqual,
    LessThanEqual,
    GreaterThanEqual,
    Comma,
    Semicolon,
    Colon,
    Newline,
    Dot,
    RangeDot,
    BoxColon,
    LeftParenthesis,
    RightParenthesis,
    LeftBrace,
    RightBrace,
    LeftBracket,
    RightBracket,
    EndOfFile,
    Illegal(char),
    Function,
    Let,
    True,
    False,
    If,
    Else,
    Nil,
    Or,
    And,
    Not,
    Type,
    Return,
    Stdout,
    Static,
    Loop,
    Break,
    Continue,
    For,
    When,
    Every,
    In,
}

/// The kind of a token, without its payload.
#[derive(Debug, Clone, Copy, PartialEq, Eq, Hash, Structural)]
pub enum TokenType {
    Integer,
    Float,
    String,
    Identifier,
    Assign,
    Plus,
    Minus,
    Asterisk,
    Slash,
    Caret,
    Bang,
    At,
    Hashtag,
    LessThan,
    GreaterThan,
    Equal,
    NotEqual,
    LessThanEqual,
    GreaterThanEqual,
    Comma,
    Semicolon,
    Colon,
    Newline,
    Dot,
    RangeDot,
    BoxColon,
    LeftParenthesis,
    RightParenthesis,
    LeftBrace,
    RightBrace,
    LeftBracket,
    RightBracket,
    EndOfFile,
    Illegal,
    Function,
    Let,
    True,
    False,
    If,
    Else,
    Nil,
    Or,
    And,
    Not,
    Type,
    Return,
    Stdout,
    Static,
    Loop,
    Break,
    Continue,
    For,
    When,
    Every,
    In,
}

/// The kind of a token.
pub open spec fn spec_token_type(t: Token) -> TokenType {
    match t {
        Token::Integer(..) => TokenType::Integer,
        Token::Float(..) => TokenType::Float,
        Token::String(..) => TokenType::String,
        Token::Identifier(..) => TokenType::Identifier,
        Token::Assign => TokenType::Assign,
        Token::Plus => TokenType::Plus,
        Token::Minus => TokenType::Minus,
        Token::Asterisk => TokenType::Asterisk,
        Token::Slash => TokenType::Slash,
        Token::Caret => TokenType::Caret,
        Token::Bang => TokenType::Bang,
        Token::At => TokenType::At,
        Token::Hashtag => TokenType::Hashtag,
        Token::LessThan => TokenType::LessThan,
        Token::GreaterThan => TokenType::GreaterThan,
        Token::Equal => TokenType::Equal,
        Token::NotEqual => TokenType::NotEqual,
        Token::LessThanEqual => TokenType::LessThanEqual,
        Token::GreaterThanEqual => TokenType::GreaterThanEqual,
        Token::Comma => TokenType::Comma,
        Token::Semicolon => TokenType::Semicolon,
        Token::Colon => TokenType::Colon,
        Token::Newline => TokenType::Newline,
        Token::Dot => TokenType::Dot,
        Token::RangeDot => TokenType::RangeDot,
        Token::BoxColon => TokenType::BoxColon,
        Token::LeftParenthesis => TokenType::LeftParenthesis,
        Token::RightParenthesis => TokenType::RightParenthesis,
        Token::LeftBrace => TokenType::LeftBrace,
        Token::RightBrace => TokenType::RightBrace,
        Token::LeftBracket => TokenType::LeftBracket,
        Token::RightBracket => TokenType::RightBracket,
        Token::EndOfFile => TokenType::EndOfFile,
        Token::Illegal(..) => TokenType::Illegal,
        Token::Function => TokenType::Function,
        Token::Let => TokenType::Let,
        Token::True => TokenType::True,
        Token::False => TokenType::False,
        Token::If => TokenType::If,
        Token::Else => TokenType::Else,
        Token::Nil => TokenType::Nil,
        Token::Or => TokenType::Or,
        Token::And => TokenType::And,
        Token::Not => TokenType::Not,
        Token::Type => TokenType::Type,
        Token::Return => TokenType::Return,
        Token::Stdout => TokenType::Stdout,
        Token::Static => TokenType::Static,
        Token::Loop => TokenType::Loop,
        Token::Break => TokenType::Break,
        Token::Continue => TokenType::Continue,
        Token::For => TokenType::For,
        Token::When => TokenType::When,
        Token::Every => TokenType::Every,
        Token::In => TokenType::In,
    }
}

/// The keyword token a word stands for, if it is a keyword.
pub open spec fn keyword_token(s: Seq<char>) -> Option<Token> {
    if false {
        None
    } else if s == "fn"@ {
        Some(Token::Function)
    } else if s == "let"@ {
        Some(Token::Let)
    } else if s == "true"@ {
        Some(Token::True)
    } else if s == "false"@ {
        Some(Token::False)
    } else if s == "if"@ {
        Some(Token::If)
    } else if s == "nil"@ {
        Some(Token::Nil)
    } else if s == "or"@ {
        Some(Token::Or)
    } else if s == "and"@ {
        Some(Token::And)
    } else if s == "not"@ {
        Some(Token::Not)
    } else if s == "type"@ {
        Some(Token::Type)
    } else if s == "else"@ {
        Some(Token::Else)
    } else if s == "return"@ {
        Some(Token::Return)
    } else if s == "stdout"@ {
        Some(Token::Stdout)
    } else if s == "static"@ {
        Some(Token::Static)
    } else if s == "loop"@ {
        Some(Token::Loop)
    } else if s == "continue"@ {
        Some(Token::Continue)
    } else if s == "break"@ {
        Some(Token::Break)
    } else if s == "for"@ {
        Some(Token::For)
    } else if s == "when"@ {
        Some(Token::When)
    } else if s == "every"@ {
        Some(Token::Every)
    } else if s == "in"@ {
        Some(Token::In)
    } else {
        None
    }
}

/// The two strings hold the same characters.
pub fn str_eq(a: &str, b: &str) -> (r: bool)
    ensures
        r == (a@ == b@),
{
    let n = a.unicode_len();
    let m = b.unicode_len();
    if n != m {
        return false;
    }
    let mut i: usize = 0;
    while i < n
        invariant
            n == a@.len(),
            m == b@.len(),
            n == m,
            0 <= i <= n,
            forall|j: int| 0 <= j < i ==> a@[j] == b@[j],
        decreases n - i,
    {
        if a.get_char(i) != b.get_char(i) {
            return false;
        }
        i = i + 1;
    }
    assert(a@ =~= b@);
    true
}

impl TokenType {
    /// Semicolons, newlines and the end of input end a statement.
    pub fn is_delimiter(&self) -> (b: bool)
        ensures
            b == (*self == TokenType::Semicolon || *self == TokenType::Newline || *self
                == TokenType::EndOfFile),
    {
        match self {
            TokenType::Semicolon | TokenType::Newline | TokenType::EndOfFile => true,
            _ => false,
        }
    }
}

impl Token {
    /// A copy of this token.
    pub fn copy(&self) -> (t: Token)
        ensures
            t == *self,
    {
        match self {
            Token::Integer(x) => Token::Integer(*x),
            Token::Float(x) => Token::Float(x.clone()),
            Token::String(x) => Token::String(x.clone()),
            Token::Identifier(x) => Token::Identifier(x.clone()),
            Token::Assign => Token::Assign,
            Token::Plus => Token::Plus,
            Token::Minus => Token::Minus,
            Token::Asterisk => Token::Asterisk,
            Token::Slash => Token::Slash,
            Token::Caret => Token::Caret,
            Token::Bang => Token::Bang,
            Token::At => Token::At,
            Token::Hashtag => Token::Hashtag,
            Token::LessThan => Token::LessThan,
            Token::GreaterThan => Token::GreaterThan,
            Token::Equal => Token::Equal,
            Token::NotEqual => Token::NotEqual,
            Token::LessThanEqual => Token::LessThanEqual,
            Token::GreaterThanEqual => Token::GreaterThanEqual,
            Token::Comma => Token::Comma,
            Token::Semicolon => Token::Semicolon,
            Token::Colon => Token::Colon,
            Token::Newline => Token::Newline,
            Token::Dot => Token::Dot,
            Token::RangeDot => Token::RangeDot,
            Token::BoxColon => Token::BoxColon,
            Token::LeftParenthesis => Token::LeftParenthesis,
            Token::RightParenthesis => Token::RightParenthesis,
            Token::LeftBrace => Token::LeftBrace,
            Token::RightBrace => Token::RightBrace,
            Token::LeftBracket => Token::LeftBracket,
            Token::RightBracket => Token::RightBracket,
            Token::EndOfFile => Token::EndOfFile,
            Token::Illegal(x) => Token::Illegal(*x),
            Token::Function => Token::Function,
            Token::Let => Token::Let,
            Token::True => Token::True,
            Token::False => Token::False,
            Token::If => Token::If,
            Token::Else => Token::Else,
            Token::Nil => Token::Nil,
            Token::Or => Token::Or,
            Token::And => Token::And,
            Token::Not => Token::Not,
            Token::Type => Token::Type,
            Token::Return => Token::Return,
            Token::Stdout => Token::Stdout,
            Token::Static => Token::Static,
            Token::Loop => Token::Loop,
            Token::Break => Token::Break,
            Token::Continue => Token::Continue,
            Token::For => Token::For,
            Token::When => Token::When,
            Token::Every => Token::Every,
            Token::In => Token::In,
        }
    }

    /// The keyword token for `identifier`, or an identifier token holding it.
    pub fn lookup_identifier(identifier: &str) -> (t: Token)
        ensures
            keyword_token(identifier@) is Some ==> t == keyword_token(identifier@).unwrap(),
            keyword_token(identifier@) is None ==> (t matches Token::Identifier(s) && s@
                == identifier@),
    {
        if str_eq(identifier, "fn") {
            return Token::Function;
        }
        if str_eq(identifier, "let") {
            return Token::Let;
        }
        if str_eq(identifier, "true") {
            return Token::True;
        }
        if str_eq(identifier, "false") {
            return Token::False;
        }
        if str_eq(identifier, "if") {
            return Token::If;
        }
        if str_eq(identifier, "nil") {
            return Token::Nil;
        }
        if str_eq(identifier, "or") {
            return Token::Or;
        }
        if str_eq(identifier, "and") {
            return Token::And;
        }
        if str_eq(identifier, "not") {
            return Token::Not;
        }
        if str_eq(identifier, "type") {
            return Token::Type;
        }
        if str_eq(identifier, "else") {
            return Token::Else;
        }
        if str_eq(identifier, "return") {
            return Token::Return;
        }
        if str_eq(identifier, "stdout") {
            return Token::Stdout;
        }
        if str_eq(identifier, "static") {
            return Token::Static;
        }
        if str_eq(identifier, "loop") {
            return Token::Loop;
        }
        if str_eq(identifier, "continue") {
            return Token::Continue;
        }
        if str_eq(identifier, "break") {
            return Token::Break;
        }
        if str_eq(identifier, "for") {
            return Token::For;
        }
        if str_eq(identifier, "when") {
            return Token::When;
        }
        if str_eq(identifier, "every") {
            return Token::Every;
        }
        if str_eq(identifier, "in") {
            return Token::In;
        }
        Token::Identifier(identifier.to_owned())
    }

    /// The kind of this token.
    pub fn get_token_type(&self) -> (tt: TokenType)
        ensures
            tt == spec_token_type(*self),
    {
        match self {
            Token::Integer(_) => TokenType::Integer,
            Token::Float(_) => TokenType::Float,
            Token::String(_) => TokenType::String,
            Token::Identifier(_) => TokenType::Identifier,
            Token::Assign => TokenType::Assign,
            Token::Plus => TokenType::Plus,
            Token::Minus => TokenType::Minus,
            Token::Asterisk => TokenType::Asterisk,
            Token::Slash => TokenType::Slash,
            Token::Caret => TokenType::Caret,
            Token::Bang => TokenType::Bang,
            Token::At => TokenType::At,
            Token::Hashtag => TokenType::Hashtag,
            Token::LessThan => TokenType::LessThan,
            Token::GreaterThan => TokenType::GreaterThan,
            Token::Equal => TokenType::Equal,
            Token::NotEqual => TokenType::NotEqual,
            Token::LessThanEqual => TokenType::LessThanEqual,
            Token::GreaterThanEqual => TokenType::GreaterThanEqual,
            Token::Comma => TokenType::Comma,
            Token::Semicolon => TokenType::Semicolon,
            Token::Colon => TokenType::Colon,
            Token::Newline => TokenType::Newline,
            Token::Dot => TokenType::Dot,
            Token::RangeDot => TokenType::RangeDot,
            Token::BoxColon => TokenType::BoxColon,
            Token::LeftParenthesis => TokenType::LeftParenthesis,
            Token::RightParenthesis => TokenType::RightParenthesis,
            Token::LeftBrace => TokenType::LeftBrace,
            Token::RightBrace => TokenType::RightBrace,
            Token::LeftBracket => TokenType::LeftBracket,
            Token::RightBracket => TokenType::RightBracket,
            Token::EndOfFile => TokenType::EndOfFile,
            Token::Illegal(_) => TokenType::Illegal,
            Token::Function => TokenType::Function,
            Token::Let => TokenType::Let,
            Token::True => TokenType::True,
            Token::False => TokenType::False,
            Token::If => TokenType::If,
            Token::Else => TokenType::Else,
            Token::Nil => TokenType::Nil,
            Token::Or => TokenType::Or,
            Token::And => TokenType::And,
            Token::Not => TokenType::Not,
            Token::Type => TokenType::Type,
            Token::Return => TokenType::Return,
            Token::Stdout => TokenType::Stdout,
            Token::Static => TokenType::Static,
            Token::Loop => TokenType::Loop,
            Token::Break => TokenType::Break,
            Token::Continue => TokenType::Continue,
            Token::For => TokenType::For,
            Token::When => TokenType::When,
            Token::Every => TokenType::Every,
            Token::In => TokenType::In,
        }
    }
}


/// The name of a token kind as written in its declaration.
pub open spec fn token_type_name(tt: TokenType) -> Seq<char> {
    match tt {
        TokenType::Integer => "Integer"@,
        TokenType::Float => "Float"@,
        TokenType::String => "String"@,
        TokenType::Identifier => "Identifier"@,
        TokenType::Assign => "Assign"@,
        TokenType::Plus => "Plus"@,
        TokenType::Minus => "Minus"@,
        TokenType::Asterisk => "Asterisk"@,
        TokenType::Slash => "Slash"@,
        TokenType::Caret => "Caret"@,
        TokenType::Bang => "Bang"@,
        TokenType::At => "At"@,
        TokenType::Hashtag => "Hashtag"@,
        TokenType::LessThan => "LessThan"@,
        TokenType::GreaterThan => "GreaterThan"@,
        TokenType::Equal => "Equal"@,
        TokenType::NotEqual => "NotEqual"@,
        TokenType::LessThanEqual => "LessThanEqual"@,
        TokenType::GreaterThanEqual => "GreaterThanEqual"@,
        TokenType::Comma => "Comma"@,
        TokenType::Semicolon => "Semicolon"@,
        TokenType::Colon => "Colon"@,
        TokenType::Newline => "Newline"@,
        TokenType::Dot => "Dot"@,
        TokenType::RangeDot => "RangeDot"@,
        TokenType::BoxColon => "BoxColon"@,
        TokenType::LeftParenthesis => "LeftParenthesis"@,
        TokenType::RightParenthesis => "RightParenthesis"@,
        TokenType::LeftBrace => "LeftBrace"@,
        TokenType::RightBrace => "RightBrace"@,
        TokenType::LeftBracket => "LeftBracket"@,
        TokenType::RightBracket => "RightBracket"@,
        TokenType::EndOfFile => "EndOfFile"@,
        TokenType::Illegal => "Illegal"@,
        TokenType::Function => "Function"@,
        TokenType::Let => "Let"@,
        TokenType::True => "True"@,
        TokenType::False => "False"@,
        TokenType::If => "If"@,
        TokenType::Else => "Else"@,
        TokenType::Nil => "Nil"@,
        TokenType::Or => "Or"@,
        TokenType::And => "And"@,
        TokenType::Not => "Not"@,
        TokenType::Type => "Type"@,
        TokenType::Return => "Return"@,
        TokenType::Stdout => "Stdout"@,
        TokenType::Static => "Static"@,
        TokenType::Loop => "Loop"@,
        TokenType::Break => "Break"@,
        TokenType::Continue => "Continue"@,
        TokenType::For => "For"@,
        TokenType::When => "When"@,
        TokenType::Every => "Every"@,
        TokenType::In => "In"@,
    }
}

impl TokenType {
    /// The name of this token kind as written in its declaration.
    pub fn name(&self) -> (s: &'static str)
        ensures
            s@ == token_type_name(*self),
    {
        proof {
            reveal_strlit("Integer");
            reveal_strlit("Float");
            reveal_strlit("String");
            reveal_strlit("Identifier");
            reveal_strlit("Assign");
            reveal_strlit("Plus");
            reveal_strlit("Minus");
            reveal_strlit("Asterisk");
            reveal_strlit("Slash");
            reveal_strlit("Caret");
            reveal_strlit("Bang");
            reveal_strlit("At");
            reveal_strlit("Hashtag");
            reveal_strlit("LessThan");
            reveal_strlit("GreaterThan");
            reveal_strlit("Equal");
            reveal_strlit("NotEqual");
            reveal_strlit("LessThanEqual");
            reveal_strlit("GreaterThanEqual");
            reveal_strlit("Comma");
            reveal_strlit("Semicolon");
            reveal_strlit("Colon");
            reveal_strlit("Newline");
            reveal_strlit("Dot");
            reveal_strlit("RangeDot");
            reveal_strlit("BoxColon");
            reveal_strlit("LeftParenthesis");
            reveal_strlit("RightParenthesis");
            reveal_strlit("LeftBrace");
            reveal_strlit("RightBrace");
            reveal_strlit("LeftBracket");
            reveal_strlit("RightBracket");
            reveal_strlit("EndOfFile");
            reveal_strlit("Illegal");
            reveal_strlit("Function");
            reveal_strlit("Let");
            reveal_strlit("True");
            reveal_strlit("False");
            reveal_strlit("If");
            reveal_strlit("Else");
            reveal_strlit("Nil");
            reveal_strlit("Or");
            reveal_strlit("And");
            reveal_strlit("Not");
            reveal_strlit("Type");
            reveal_strlit("Return");
            reveal_strlit("Stdout");
            reveal_strlit("Static");
            reveal_strlit("Loop");
            reveal_strlit("Break");
            reveal_strlit("Continue");
            reveal_strlit("For");
            reveal_strlit("When");
            reveal_strlit("Every");
            reveal_strlit("In");
        }
        match self {
            TokenType::Integer => "Integer",
            TokenType::Float => "Float",
            TokenType::String => "String",
            TokenType::Identifier => "Identifier",
            TokenType::Assign => "Assign",
            TokenType::Plus => "Plus",
            TokenType::Minus => "Minus",
            TokenType::Asterisk => "Asterisk",
            TokenType::Slash => "Slash",
            TokenType::Caret => "Caret",
            TokenType::Bang => "Bang",
            TokenType::At => "At",
            TokenType::Hashtag => "Hashtag",
            TokenType::LessThan => "LessThan",
            TokenType::GreaterThan => "GreaterThan",
            TokenType::Equal => "Equal",
            TokenType::NotEqual => "NotEqual",
            TokenType::LessThanEqual => "LessThanEqual",
            TokenType::GreaterThanEqual => "GreaterThanEqual",
            TokenType::Comma => "Comma",
            TokenType::Semicolon => "Semicolon",
            TokenType::Colon => "Colon",
            TokenType::Newline => "Newline",
            TokenType::Dot => "Dot",
            TokenType::RangeDot => "RangeDot",
            TokenType::BoxColon => "BoxColon",
            TokenType::LeftParenthesis => "LeftParenthesis",
            TokenType::RightParenthesis => "RightParenthesis",
            TokenType::LeftBrace => "LeftBrace",
            TokenType::RightBrace => "RightBrace",
            TokenType::LeftBracket => "LeftBracket",
            TokenType::RightBracket => "RightBracket",
            TokenType::EndOfFile => "EndOfFile",
            TokenType::Illegal => "Illegal",
            TokenType::Function => "Function",
            TokenType::Let => "Let",
            TokenType::True => "True",
            TokenType::False => "False",
            TokenType::If => "If",
            TokenType::Else => "Else",
            TokenType::Nil => "Nil",
            TokenType::Or => "Or",
            TokenType::And => "And",
            TokenType::Not => "Not",
            TokenType::Type => "Type",
            TokenType::Return => "Return",
            TokenType::Stdout => "Stdout",
            TokenType::Static => "Static",
            TokenType::Loop => "Loop",
            TokenType::Break => "Break",
            TokenType::Continue => "Continue",
            TokenType::For => "For",
            TokenType::When => "When",
            TokenType::Every => "Every",
            TokenType::In => "In",
        }
    }
}


/// The text a token kind is shown with in messages: the symbol or keyword
/// it stands for, or the name of a literal kind.
pub open spec fn token_type_text(tt: TokenType) -> Seq<char> {
    match tt {
        TokenType::Integer => "Integer"@,
        TokenType::Float => "Float"@,
        TokenType::String => "String"@,
        TokenType::Identifier => "Identifier"@,
        TokenType::Assign => "="@,
        TokenType::Plus => "+"@,
        TokenType::Minus => "-"@,
        TokenType::Asterisk => "*"@,
        TokenType::Slash => "/"@,
        TokenType::Caret => "^"@,
        TokenType::Bang => "!"@,
        TokenType::At => "@"@,
        TokenType::Hashtag => "#"@,
        TokenType::LessThan => "<"@,
        TokenType::GreaterThan => ">"@,
        TokenType::Equal => "=="@,
        TokenType::NotEqual => "!="@,
        TokenType::LessThanEqual => "<="@,
        TokenType::GreaterThanEqual => ">="@,
        TokenType::Comma => ","@,
        TokenType::Semicolon => ";"@,
        TokenType::Colon => ":"@,
        TokenType::Newline => "newline"@,
        TokenType::Dot => "."@,
        TokenType::RangeDot => ".."@,
        TokenType::BoxColon => "::"@,
        TokenType::LeftParenthesis => "("@,
        TokenType::RightParenthesis => ")"@,
        TokenType::LeftBrace => "{"@,
        TokenType::RightBrace => "}"@,
        TokenType::LeftBracket => "["@,
        TokenType::RightBracket => "]"@,
        TokenType::EndOfFile => "EOF"@,
        TokenType::Illegal => "illegal"@,
        TokenType::Function => "fn"@,
        TokenType::Let => "let"@,
        TokenType::True => "true"@,
        TokenType::False => "false"@,
        TokenType::If => "if"@,
        TokenType::Else => "else"@,
        TokenType::Nil => "nil"@,
        TokenType::Or => "or"@,
        TokenType::And => "and"@,
        TokenType::Not => "not"@,
        TokenType::Type => "type"@,
        TokenType::Return => "return"@,
        TokenType::Stdout => "stdout"@,
        TokenType::Static => "static"@,
        TokenType::Loop => "loop"@,
        TokenType::Break => "break"@,
        TokenType::Continue => "continue"@,
        TokenType::For => "for"@,
        TokenType::When => "when"@,
        TokenType::Every => "every"@,
        TokenType::In => "in"@,
    }
}

impl TokenType {
    /// The text this token kind is shown with in messages.
    pub fn text(&self) -> (s: &'static str)
        ensures
            s@ == token_type_text(*self),
    {
        proof {
            reveal_strlit("Integer");
            reveal_strlit("Float");
            reveal_strlit("String");
            reveal_strlit("Identifier");
            reveal_strlit("=");
            reveal_strlit("+");
            reveal_strlit("-");
            reveal_strlit("*");
            reveal_strlit("/");
            reveal_strlit("^");
            reveal_strlit("!");
            reveal_strlit("@");
            reveal_strlit("#");
            reveal_strlit("<");
            reveal_strlit(">");
            reveal_strlit("==");
            reveal_strlit("!=");
            reveal_strlit("<=");
            reveal_strlit(">=");
            reveal_strlit(",");
            reveal_strlit(";");
            reveal_strlit(":");
            reveal_strlit("newline");
            reveal_strlit(".");
            reveal_strlit("..");
            reveal_strlit("::");
            reveal_strlit("(");
            reveal_strlit(")");
            reveal_strlit("{");
            reveal_strlit("}");
            reveal_strlit("[");
            reveal_strlit("]");
            reveal_strlit("EOF");
            reveal_strlit("illegal");
            reveal_strlit("fn");
            reveal_strlit("let");
            reveal_strlit("true");
            reveal_strlit("false");
            reveal_strlit("if");
            reveal_strlit("else");
            reveal_strlit("nil");
            reveal_strlit("or");
            reveal_strlit("and");
            reveal_strlit("not");
            reveal_strlit("type");
            reveal_strlit("return");
            reveal_strlit("stdout");
            reveal_strlit("static");
            reveal_strlit("loop");
            reveal_strlit("break");
            reveal_strlit("continue");
            reveal_strlit("for");
            reveal_strlit("when");
            reveal_strlit("every");
            reveal_strlit("in");
        }
        match self {
            TokenType::Integer => "Integer",
            TokenType::Float => "Float",
            TokenType::String => "String",
            TokenType::Identifier => "Identifier",
            TokenType::Assign => "=",
            TokenType::Plus => "+",
            TokenType::Minus => "-",
            TokenType::Asterisk => "*",
            TokenType::Slash => "/",
            TokenType::Caret => "^",
            TokenType::Bang => "!",
            TokenType::At => "@",
            TokenType::Hashtag => "#",
            TokenType::LessThan => "<",
            TokenType::GreaterThan => ">",
            TokenType::Equal => "==",
            TokenType::NotEqual => "!=",
            TokenType::LessThanEqual => "<=",
            TokenType::GreaterThanEqual => ">=",
            TokenType::Comma => ",",
            TokenType::Semicolon => ";",
            TokenType::Colon => ":",
            TokenType::Newline => "newline",
            TokenType::Dot => ".",
            TokenType::RangeDot => "..",
            TokenType::BoxColon => "::",
            TokenType::LeftParenthesis => "(",
            TokenType::RightParenthesis => ")",
            TokenType::LeftBrace => "{",
            TokenType::RightBrace => "}",
            TokenType::LeftBracket => "[",
            TokenType::RightBracket => "]",
            TokenType::EndOfFile => "EOF",
            TokenType::Illegal => "illegal",
            TokenType::Function => "fn",
            TokenType::Let => "let",
            TokenType::True => "true",
            TokenType::False => "false",
            TokenType::If => "if",
            TokenType::Else => "else",
            TokenType::Nil => "nil",
            TokenType::Or => "or",
            TokenType::And => "and",
            TokenType::Not => "not",
            TokenType::Type => "type",
            TokenType::Return => "return",
            TokenType::Stdout => "stdout",
            TokenType::Static => "static",
            TokenType::Loop => "loop",
            TokenType::Break => "break",
            TokenType::Continue => "continue",
            TokenType::For => "for",
            TokenType::When => "when",
            TokenType::Every => "every",
            TokenType::In => "in",
        }
    }
}

} // verus!
