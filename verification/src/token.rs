//! Token kinds, the keyword table, and the token record that the scanner
//! produces and every later stage carries for diagnostics.
use crate::literal::{lit_like, opt_like, Literal};
use crate::strutil::str_eq;
use vstd::prelude::*;
use vstd::string::*;

verus! {

#[derive(PartialEq, Eq, Structural, Clone, Copy, Debug)]
pub enum TokenType {
    LeftParen,
    RightParen,
    LeftBrace,
    RightBrace,
    Comma,
    Dot,
    Minus,
    Plus,
    Semicolon,
    Slash,
    Star,
    LeftSquare,
    RightSquare,
    Modulo,
    Bang,
    BangEqual,
    Equal,
    EqualEqual,
    Greater,
    GreaterEqual,
    Less,
    LessEqual,
    PlusEqual,
    MinusEqual,
    StarEqual,
    SlashEqual,
    Identifier,
    String,
    Number,
    And,
    Class,
    Else,
    ElseIf,
    False,
    Fun,
    If,
    Nil,
    Or,
    Print,
    Return,
    Super,
    This,
    True,
    Var,
    While,
    For,
    Break,
    Continue,
    Inherits,
    Eof,
}

pub open spec fn spec_keyword(s: Seq<char>) -> Option<TokenType> {
    if s == "wa"@ {
        Some(TokenType::And)
    } else if s == "aw"@ {
        Some(TokenType::Or)
    } else if s == "la"@ {
        Some(TokenType::Bang)
    } else if s == "kitab"@ {
        Some(TokenType::Class)
    } else if s == "ibn"@ {
        Some(TokenType::Inherits)
    } else if s == "illa"@ {
        Some(TokenType::Else)
    } else if s == "ilshart"@ {
        Some(TokenType::ElseIf)
    } else if s == "batil"@ {
        Some(TokenType::False)
    } else if s == "haqq"@ {
        Some(TokenType::True)
    } else if s == "ghaib"@ {
        Some(TokenType::Nil)
    } else if s == "tawaf"@ {
        Some(TokenType::For)
    } else if s == "baynama"@ {
        Some(TokenType::While)
    } else if s == "amal"@ {
        Some(TokenType::Fun)
    } else if s == "shart"@ {
        Some(TokenType::If)
    } else if s == "qul"@ {
        Some(TokenType::Print)
    } else if s == "radd"@ {
        Some(TokenType::Return)
    } else if s == "ulya"@ {
        Some(TokenType::Super)
    } else if s == "nafs"@ {
        Some(TokenType::This)
    } else if s == "niyya"@ {
        Some(TokenType::Var)
    } else if s == "iftar"@ {
        Some(TokenType::Break)
    } else if s == "safar"@ {
        Some(TokenType::Continue)
    } else {
        None
    }
}

impl TokenType {
    pub fn from_keyword(keyword: &str) -> (r: Option<TokenType>)
        ensures
            r == spec_keyword(keyword@),
    {
        if str_eq(keyword, "wa") {
            Some(TokenType::And)
        } else if str_eq(keyword, "aw") {
            Some(TokenType::Or)
        } else if str_eq(keyword, "la") {
            Some(TokenType::Bang)
        } else if str_eq(keyword, "kitab") {
            Some(TokenType::Class)
        } else if str_eq(keyword, "ibn") {
            Some(TokenType::Inherits)
        } else if str_eq(keyword, "illa") {
            Some(TokenType::Else)
        } else if str_eq(keyword, "ilshart") {
            Some(TokenType::ElseIf)
        } else if str_eq(keyword, "batil") {
            Some(TokenType::False)
        } else if str_eq(keyword, "haqq") {
            Some(TokenType::True)
        } else if str_eq(keyword, "ghaib") {
            Some(TokenType::Nil)
        } else if str_eq(keyword, "tawaf") {
            Some(TokenType::For)
        } else if str_eq(keyword, "baynama") {
            Some(TokenType::While)
        } else if str_eq(keyword, "amal") {
            Some(TokenType::Fun)
        } else if str_eq(keyword, "shart") {
            Some(TokenType::If)
        } else if str_eq(keyword, "qul") {
            Some(TokenType::Print)
        } else if str_eq(keyword, "radd") {
            Some(TokenType::Return)
        } else if str_eq(keyword, "ulya") {
            Some(TokenType::Super)
        } else if str_eq(keyword, "nafs") {
            Some(TokenType::This)
        } else if str_eq(keyword, "niyya") {
            Some(TokenType::Var)
        } else if str_eq(keyword, "iftar") {
            Some(TokenType::Break)
        } else if str_eq(keyword, "safar") {
            Some(TokenType::Continue)
        } else {
            None
        }
    }
}

pub struct Token {
    pub token_type: TokenType,
    pub lexeme: String,
    pub literal: Option<Literal>,
    pub line: i64,
    pub position: i64,
}

/// Two tokens that agree on everything observable: kind, lexeme text, payload
/// (up to string contents), line and position.
pub open spec fn tok_like(a: Token, b: Token) -> bool {
    &&& a.token_type == b.token_type
    &&& a.lexeme@ == b.lexeme@
    &&& opt_like(a.literal, b.literal)
    &&& a.line == b.line
    &&& a.position == b.position
}

impl Token {
    pub fn init(
        token_type: TokenType,
        lexeme: &String,
        literal: Option<Literal>,
        line: i64,
        position: i64,
    ) -> (r: Self)
        ensures
            r.token_type == token_type,
            r.lexeme@ == lexeme@,
            r.literal == literal,
            r.line == line,
            r.position == position,
    {
        Token { token_type, lexeme: lexeme.clone(), literal, line, position }
    }

    pub fn dummy() -> (r: Self)
        ensures
            r.token_type == TokenType::Eof,
            r.literal is None,
            r.line == -1,
    {
        Token {
            token_type: TokenType::Eof,
            lexeme: String::from_str("dummy"),
            literal: None,
            line: -1,
            position: 0,
        }
    }

    pub fn copy(token: &Token) -> (r: Self)
        ensures
            tok_like(r, *token),
    {
        Token {
            token_type: token.token_type,
            lexeme: token.lexeme.clone(),
            literal: match &token.literal {
                Some(l) => Some(l.dup()),
                None => None,
            },
            line: token.line,
            position: token.position,
        }
    }
}

} // verus!
