//! Lexical tokens carried by the leaves of parse and syntax trees.

use vstd::prelude::*;
use vstd::string::*;

verus! {

/// A token produced by the lexer. The leaves of a parse tree hold a token
/// together with the byte it was read from.
#[derive(Clone, Copy, Debug, PartialEq, Eq, Structural)]
pub enum Token {
    Alpha,
    Digit,
    HashTag,
    LeftBracket,
    RightBracket,
    LeftParenthesis,
    RightParenthesis,
    LeftBrace,
    RightBrace,
    Caret,
    Semicolon,
    Space,
    Plus,
    Dash,
    Underscore,
    At,
    Asterisk,
    Slash,
    Apostrophe,
    Equal,
    LessThan,
    GreaterThan,
    Exclamation,
    Question,
    Period,
    Colon,
    Comma,
    Tilde,
    Grave,
    Bar,
    Backslash,
    Quote,
    Ampersand,
    Percent,
    Newline,
    CarriageReturn,
    Tab,
    EndOfStream,
}

/// The name of a token, as its `Debug` rendering spells it.
pub open spec fn token_name(t: Token) -> Seq<char> {
    match t {
        Token::Alpha => "Alpha"@,
        Token::Digit => "Digit"@,
        Token::HashTag => "HashTag"@,
        Token::LeftBracket => "LeftBracket"@,
        Token::RightBracket => "RightBracket"@,
        Token::LeftParenthesis => "LeftParenthesis"@,
        Token::RightParenthesis => "RightParenthesis"@,
        Token::LeftBrace => "LeftBrace"@,
        Token::RightBrace => "RightBrace"@,
        Token::Caret => "Caret"@,
        Token::Semicolon => "Semicolon"@,
        Token::Space => "Space"@,
        Token::Plus => "Plus"@,
        Token::Dash => "Dash"@,
        Token::Underscore => "Underscore"@,
        Token::At => "At"@,
        Token::Asterisk => "Asterisk"@,
        Token::Slash => "Slash"@,
        Token::Apostrophe => "Apostrophe"@,
        Token::Equal => "Equal"@,
        Token::LessThan => "LessThan"@,
        Token::GreaterThan => "GreaterThan"@,
        Token::Exclamation => "Exclamation"@,
        Token::Question => "Question"@,
        Token::Period => "Period"@,
        Token::Colon => "Colon"@,
        Token::Comma => "Comma"@,
        Token::Tilde => "Tilde"@,
        Token::Grave => "Grave"@,
        Token::Bar => "Bar"@,
        Token::Backslash => "Backslash"@,
        Token::Quote => "Quote"@,
        Token::Ampersand => "Ampersand"@,
        Token::Percent => "Percent"@,
        Token::Newline => "Newline"@,
        Token::CarriageReturn => "CarriageReturn"@,
        Token::Tab => "Tab"@,
        Token::EndOfStream => "EndOfStream"@,
    }
}

impl Token {
    /// The name of the token, as its `Debug` rendering spells it.
    pub fn name(&self) -> (s: String)
        ensures
            s@ == token_name(*self),
    {
        match self {
            Token::Alpha => String::from_str("Alpha"),
            Token::Digit => String::from_str("Digit"),
            Token::HashTag => String::from_str("HashTag"),
            Token::LeftBracket => String::from_str("LeftBracket"),
            Token::RightBracket => String::from_str("RightBracket"),
            Token::LeftParenthesis => String::from_str("LeftParenthesis"),
            Token::RightParenthesis => String::from_str("RightParenthesis"),
            Token::LeftBrace => String::from_str("LeftBrace"),
            Token::RightBrace => String::from_str("RightBrace"),
            Token::Caret => String::from_str("Caret"),
            Token::Semicolon => String::from_str("Semicolon"),
            Token::Space => String::from_str("Space"),
            Token::Plus => String::from_str("Plus"),
            Token::Dash => String::from_str("Dash"),
            Token::Underscore => String::from_str("Underscore"),
            Token::At => String::from_str("At"),
            Token::Asterisk => String::from_str("Asterisk"),
            Token::Slash => String::from_str("Slash"),
            Token::Apostrophe => String::from_str("Apostrophe"),
            Token::Equal => String::from_str("Equal"),
            Token::LessThan => String::from_str("LessThan"),
            Token::GreaterThan => String::from_str("GreaterThan"),
            Token::Exclamation => String::from_str("Exclamation"),
            Token::Question => String::from_str("Question"),
            Token::Period => String::from_str("Period"),
            Token::Colon => String::from_str("Colon"),
            Token::Comma => String::from_str("Comma"),
            Token::Tilde => String::from_str("Tilde"),
            Token::Grave => String::from_str("Grave"),
            Token::Bar => String::from_str("Bar"),
            Token::Backslash => String::from_str("Backslash"),
            Token::Quote => String::from_str("Quote"),
            Token::Ampersand => String::from_str("Ampersand"),
            Token::Percent => String::from_str("Percent"),
            Token::Newline => String::from_str("Newline"),
            Token::CarriageReturn => String::from_str("CarriageReturn"),
            Token::Tab => String::from_str("Tab"),
            Token::EndOfStream => String::from_str("EndOfStream"),
        }
    }
}

} // verus!
