//! Tokens of the query language, their mathematical model, and the fixed
//! keyword set.

use vstd::prelude::*;

verus! {

/// Smallest meaningful lexical unit produced from raw query text.
///
/// `Whitespace` tokens are transient: the tokenizer produces them during
/// scanning and filters them out before returning its result.
#[derive(Debug, PartialEq)]
pub enum Token {
    Identifier(String),
    Keyword(String),
    Number(String),
    Comma,
    Whitespace,
    Eq,
    Neq,
    Lt,
    Gt,
    LtEq,
    GtEq,
    Plus,
    Minus,
    Mult,
    Div,
    LParen,
    RParen,
}

/// Mathematical model of a [`Token`]: the same variants with text payloads
/// abstracted to character sequences.
pub enum SpecToken {
    Identifier(Seq<char>),
    Keyword(Seq<char>),
    Number(Seq<char>),
    Comma,
    Whitespace,
    Eq,
    Neq,
    Lt,
    Gt,
    LtEq,
    GtEq,
    Plus,
    Minus,
    Mult,
    Div,
    LParen,
    RParen,
}

impl View for Token {
    type V = SpecToken;

    open spec fn view(&self) -> SpecToken {
        match self {
            Token::Identifier(s) => SpecToken::Identifier(s@),
            Token::Keyword(s) => SpecToken::Keyword(s@),
            Token::Number(s) => SpecToken::Number(s@),
            Token::Comma => SpecToken::Comma,
            Token::Whitespace => SpecToken::Whitespace,
            Token::Eq => SpecToken::Eq,
            Token::Neq => SpecToken::Neq,
            Token::Lt => SpecToken::Lt,
            Token::Gt => SpecToken::Gt,
            Token::LtEq => SpecToken::LtEq,
            Token::GtEq => SpecToken::GtEq,
            Token::Plus => SpecToken::Plus,
            Token::Minus => SpecToken::Minus,
            Token::Mult => SpecToken::Mult,
            Token::Div => SpecToken::Div,
            Token::LParen => SpecToken::LParen,
            Token::RParen => SpecToken::RParen,
        }
    }
}

impl Clone for Token {
    fn clone(&self) -> (r: Self)
        ensures
            r@ == self@,
    {
        match self {
            Token::Identifier(s) => Token::Identifier(s.clone()),
            Token::Keyword(s) => Token::Keyword(s.clone()),
            Token::Number(s) => Token::Number(s.clone()),
            Token::Comma => Token::Comma,
            Token::Whitespace => Token::Whitespace,
            Token::Eq => Token::Eq,
            Token::Neq => Token::Neq,
            Token::Lt => Token::Lt,
            Token::Gt => Token::Gt,
            Token::LtEq => Token::LtEq,
            Token::GtEq => Token::GtEq,
            Token::Plus => Token::Plus,
            Token::Minus => Token::Minus,
            Token::Mult => Token::Mult,
            Token::Div => Token::Div,
            Token::LParen => Token::LParen,
            Token::RParen => Token::RParen,
        }
    }
}

/// The abstract contents of a token sequence.
pub open spec fn tokens_view(ts: Seq<Token>) -> Seq<SpecToken> {
    ts.map_values(|t: Token| t@)
}

/// Error raised by this front end: a lexical failure from the tokenizer or a
/// structural failure from the parser, each carrying a diagnostic string.
#[derive(Debug)]
pub enum ParserError {
    TokenizerError(String),
    ParserError(String),
}

impl Clone for ParserError {
    fn clone(&self) -> (r: Self)
        ensures
            r matches ParserError::TokenizerError(m) ==> (self matches ParserError::TokenizerError(
                m0,
            ) && m@ == m0@),
            r matches ParserError::ParserError(m) ==> (self matches ParserError::ParserError(m0)
                && m@ == m0@),
    {
        match self {
            ParserError::TokenizerError(m) => ParserError::TokenizerError(m.clone()),
            ParserError::ParserError(m) => ParserError::ParserError(m.clone()),
        }
    }
}

/// ASCII uppercasing of a single character; characters outside `'a'..='z'`
/// are unchanged.
pub open spec fn spec_upper_char(c: char) -> char {
    if 'a' <= c && c <= 'z' {
        ((c as u32) - 32) as char
    } else {
        c
    }
}

/// ASCII uppercasing of a character sequence.
pub open spec fn spec_upper(s: Seq<char>) -> Seq<char> {
    s.map_values(|c: char| spec_upper_char(c))
}

/// The fixed set of reserved words, matched case-insensitively: a lexeme is a
/// keyword exactly when its ASCII-uppercased form is one of these.
pub open spec fn spec_is_keyword(s: Seq<char>) -> bool {
    let u = spec_upper(s);
    ||| u == "SELECT"@
    ||| u == "FROM"@
    ||| u == "WHERE"@
    ||| u == "LIMIT"@
    ||| u == "ORDER"@
    ||| u == "GROUP"@
    ||| u == "BY"@
    ||| u == "UNION"@
    ||| u == "ALL"@
    ||| u == "UPDATE"@
    ||| u == "DELETE"@
    ||| u == "IN"@
    ||| u == "NOT"@
    ||| u == "NULL"@
    ||| u == "SET"@
}

/// ASCII uppercasing of a single character.
pub fn upper_char(c: char) -> (r: char)
    ensures
        r == spec_upper_char(c),
{
    match c {
        'a' => 'A',
        'b' => 'B',
        'c' => 'C',
        'd' => 'D',
        'e' => 'E',
        'f' => 'F',
        'g' => 'G',
        'h' => 'H',
        'i' => 'I',
        'j' => 'J',
        'k' => 'K',
        'l' => 'L',
        'm' => 'M',
        'n' => 'N',
        'o' => 'O',
        'p' => 'P',
        'q' => 'Q',
        'r' => 'R',
        's' => 'S',
        't' => 'T',
        'u' => 'U',
        'v' => 'V',
        'w' => 'W',
        'x' => 'X',
        'y' => 'Y',
        'z' => 'Z',
        _ => c,
    }
}

/// Whether the characters held in `v` are exactly the characters of `s`.
fn chars_eq_str(v: &Vec<char>, s: &str) -> (r: bool)
    ensures
        r == (v@ == s@),
{
    let n = s.unicode_len();
    if v.len() != n {
        return false;
    }
    let mut i: usize = 0;
    while i < n
        invariant
            i <= n,
            n == s@.len(),
            v@.len() == n,
            forall|k: int| 0 <= k < i ==> v@[k] == s@[k],
        decreases n - i,
    {
        if v[i] != s.get_char(i) {
            return false;
        }
        i = i + 1;
    }
    proof {
        assert(v@ =~= s@);
    }
    true
}

/// Whether the lexeme is one of the reserved words, matched
/// case-insensitively.
pub fn is_keyword(lexeme: &str) -> (r: bool)
    ensures
        r == spec_is_keyword(lexeme@),
{
    let n = lexeme.unicode_len();
    let mut up: Vec<char> = Vec::new();
    let mut i: usize = 0;
    while i < n
        invariant
            i <= n,
            n == lexeme@.len(),
            up@.len() == i,
            forall|k: int| 0 <= k < i ==> up@[k] == spec_upper_char(lexeme@[k]),
        decreases n - i,
    {
        let c = lexeme.get_char(i);
        up.push(upper_char(c));
        i = i + 1;
    }
    proof {
        assert(up@ =~= spec_upper(lexeme@));
    }
    let r = chars_eq_str(&up, "SELECT") || chars_eq_str(&up, "FROM")
        || chars_eq_str(&up, "WHERE") || chars_eq_str(&up, "LIMIT")
        || chars_eq_str(&up, "ORDER") || chars_eq_str(&up, "GROUP")
        || chars_eq_str(&up, "BY") || chars_eq_str(&up, "UNION")
        || chars_eq_str(&up, "ALL") || chars_eq_str(&up, "UPDATE")
        || chars_eq_str(&up, "DELETE") || chars_eq_str(&up, "IN")
        || chars_eq_str(&up, "NOT") || chars_eq_str(&up, "NULL")
        || chars_eq_str(&up, "SET");
    r
}

} // verus!
