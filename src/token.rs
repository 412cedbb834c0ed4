use vstd::prelude::*;

verus! {

/// The closed set of token kinds.
#[derive(Debug, Clone, Copy, PartialEq, Eq, Structural)]
#[allow(non_camel_case_types, clippy::upper_case_acronyms)]
pub enum TokenType {
    ILLEGAL,
    EOF,
    IDENTIFIER,
    INT,
    // keywords
    FUNCTION,
    LET,
    IF,
    ELSE,
    TRUE,
    FALSE,
    RETURN,
    // operators
    ASSIGN,
    PLUS,
    MINUS,
    BANG,
    ASTERISK,
    SLASH,
    LT,
    GT,
    EQ,
    NEQ,
    // delimiters
    LPAREN,
    RPAREN,
    LBRACE,
    RBRACE,
    SEMICOLON,
    COMMA,
}

/// A classified piece of source text: its kind and the exact text matched.
#[derive(Debug, PartialEq)]
pub struct Token {
    pub token_type: TokenType,
    pub literal: String,
}

/// The canonical spelling of every keyword, operator and delimiter. The four
/// literal classes (`ILLEGAL`, `EOF`, `IDENTIFIER`, `INT`) have none.
pub open spec fn surface_form(k: TokenType) -> Option<Seq<char>> {
    match k {
        TokenType::FUNCTION => Some("fn"@),
        TokenType::LET => Some("let"@),
        TokenType::IF => Some("if"@),
        TokenType::ELSE => Some("else"@),
        TokenType::TRUE => Some("true"@),
        TokenType::FALSE => Some("false"@),
        TokenType::RETURN => Some("return"@),
        TokenType::ASSIGN => Some("="@),
        TokenType::PLUS => Some("+"@),
        TokenType::MINUS => Some("-"@),
        TokenType::BANG => Some("!"@),
        TokenType::ASTERISK => Some("*"@),
        TokenType::SLASH => Some("/"@),
        TokenType::LT => Some("<"@),
        TokenType::GT => Some(">"@),
        TokenType::EQ => Some("=="@),
        TokenType::NEQ => Some("!="@),
        TokenType::LPAREN => Some("("@),
        TokenType::RPAREN => Some(")"@),
        TokenType::LBRACE => Some("{"@),
        TokenType::RBRACE => Some("}"@),
        TokenType::SEMICOLON => Some(";"@),
        TokenType::COMMA => Some(","@),
        _ => None,
    }
}

/// The kind whose canonical spelling is exactly `w`, if there is one.
pub open spec fn kind_of_surface(w: Seq<char>) -> Option<TokenType> {
    if exists|k: TokenType| surface_form(k) == Some(w) {
        Some(choose|k: TokenType| surface_form(k) == Some(w))
    } else {
        None
    }
}

/// The kind of a word: a keyword when the word is spelled as one, otherwise
/// an identifier.
pub open spec fn word_kind(w: Seq<char>) -> TokenType {
    match kind_of_surface(w) {
        Some(k) => k,
        None => TokenType::IDENTIFIER,
    }
}

/// The name of a kind as diagnostics print it.
pub open spec fn kind_name(k: TokenType) -> Seq<char> {
    match k {
        TokenType::ILLEGAL => "ILLEGAL"@,
        TokenType::EOF => "EOF"@,
        TokenType::IDENTIFIER => "IDENTIFIER"@,
        TokenType::INT => "INT"@,
        TokenType::FUNCTION => "FUNCTION"@,
        TokenType::LET => "LET"@,
        TokenType::IF => "IF"@,
        TokenType::ELSE => "ELSE"@,
        TokenType::TRUE => "TRUE"@,
        TokenType::FALSE => "FALSE"@,
        TokenType::RETURN => "RETURN"@,
        TokenType::ASSIGN => "ASSIGN"@,
        TokenType::PLUS => "PLUS"@,
        TokenType::MINUS => "MINUS"@,
        TokenType::BANG => "BANG"@,
        TokenType::ASTERISK => "ASTERISK"@,
        TokenType::SLASH => "SLASH"@,
        TokenType::LT => "LT"@,
        TokenType::GT => "GT"@,
        TokenType::EQ => "EQ"@,
        TokenType::NEQ => "NEQ"@,
        TokenType::LPAREN => "LPAREN"@,
        TokenType::RPAREN => "RPAREN"@,
        TokenType::LBRACE => "LBRACE"@,
        TokenType::RBRACE => "RBRACE"@,
        TokenType::SEMICOLON => "SEMICOLON"@,
        TokenType::COMMA => "COMMA"@,
    }
}

/// No two kinds share a canonical spelling.
pub proof fn lemma_surface_injective(a: TokenType, b: TokenType)
    requires
        surface_form(a) is Some,
        surface_form(a) == surface_form(b),
    ensures
        a == b,
{
    reveal_strlit("fn");
    reveal_strlit("let");
    reveal_strlit("if");
    reveal_strlit("else");
    reveal_strlit("true");
    reveal_strlit("false");
    reveal_strlit("return");
    reveal_strlit("=");
    reveal_strlit("+");
    reveal_strlit("-");
    reveal_strlit("!");
    reveal_strlit("*");
    reveal_strlit("/");
    reveal_strlit("<");
    reveal_strlit(">");
    reveal_strlit("==");
    reveal_strlit("!=");
    reveal_strlit("(");
    reveal_strlit(")");
    reveal_strlit("{");
    reveal_strlit("}");
    reveal_strlit(";");
    reveal_strlit(",");
    let w = surface_form(a)->0;
    assert(w.len() >= 1);
    assert(w[0] == surface_form(b)->0[0]);
    assert(w.len() == surface_form(b)->0.len());
    if w.len() >= 2 {
        assert(w[1] == surface_form(b)->0[1]);
    }
}
/// The kind spelled `w`, when `w` is the canonical spelling of `k`.
proof fn lemma_kind_of_surface(k: TokenType, w: Seq<char>)
    requires
        surface_form(k) == Some(w),
    ensures
        kind_of_surface(w) == Some(k),
{
    let c = choose|c: TokenType| surface_form(c) == Some(w);
    lemma_surface_injective(k, c);
}

/// A spelling found in the table belongs to the kind found for it, which is
/// therefore none of the four literal classes.
pub proof fn lemma_kind_is_spelled(w: Seq<char>)
    requires
        kind_of_surface(w) is Some,
    ensures
        surface_form(kind_of_surface(w)->0) == Some(w),
        kind_of_surface(w)->0 != TokenType::EOF,
        kind_of_surface(w)->0 != TokenType::IDENTIFIER,
{
}

/// Whether two strings hold the same characters.
fn same_text(a: &str, b: &str) -> (r: bool)
    ensures
        r == (a@ == b@),
{
    let n = a.unicode_len();
    if n != b.unicode_len() {
        return false;
    }
    let mut i: usize = 0;
    while i < n
        invariant
            n == a@.len(),
            n == b@.len(),
            i <= n,
            a@.subrange(0, i as int) == b@.subrange(0, i as int),
        decreases n - i,
    {
        if a.get_char(i) != b.get_char(i) {
            return false;
        }
        assert(a@.subrange(0, i + 1) == a@.subrange(0, i as int).push(a@[i as int]));
        assert(b@.subrange(0, i + 1) == b@.subrange(0, i as int).push(b@[i as int]));
        i = i + 1;
    }
    assert(a@ == a@.subrange(0, n as int));
    assert(b@ == b@.subrange(0, n as int));
    true
}

impl TokenType {
    /// The canonical spelling of this kind, if it has one.
    pub fn surface(&self) -> (r: Option<&'static str>)
        ensures
            r is Some <==> surface_form(*self) is Some,
            r is Some ==> r->0@ == surface_form(*self)->0,
    {
        match self {
            TokenType::FUNCTION => Some("fn"),
            TokenType::LET => Some("let"),
            TokenType::IF => Some("if"),
            TokenType::ELSE => Some("else"),
            TokenType::TRUE => Some("true"),
            TokenType::FALSE => Some("false"),
            TokenType::RETURN => Some("return"),
            TokenType::ASSIGN => Some("="),
            TokenType::PLUS => Some("+"),
            TokenType::MINUS => Some("-"),
            TokenType::BANG => Some("!"),
            TokenType::ASTERISK => Some("*"),
            TokenType::SLASH => Some("/"),
            TokenType::LT => Some("<"),
            TokenType::GT => Some(">"),
            TokenType::EQ => Some("=="),
            TokenType::NEQ => Some("!="),
            TokenType::LPAREN => Some("("),
            TokenType::RPAREN => Some(")"),
            TokenType::LBRACE => Some("{"),
            TokenType::RBRACE => Some("}"),
            TokenType::SEMICOLON => Some(";"),
            TokenType::COMMA => Some(","),
            _ => None,
        }
    }

    /// The kind whose canonical spelling is exactly `s`, if any: the one
    /// table that both words and operators are classified by.
    pub fn from_surface(s: &str) -> (r: Option<TokenType>)
        ensures
            r == kind_of_surface(s@),
    {
        if same_text(s, "fn") {
            proof { lemma_kind_of_surface(TokenType::FUNCTION, s@); }
            return Some(TokenType::FUNCTION);
        }
        if same_text(s, "let") {
            proof { lemma_kind_of_surface(TokenType::LET, s@); }
            return Some(TokenType::LET);
        }
        if same_text(s, "if") {
            proof { lemma_kind_of_surface(TokenType::IF, s@); }
            return Some(TokenType::IF);
        }
        if same_text(s, "else") {
            proof { lemma_kind_of_surface(TokenType::ELSE, s@); }
            return Some(TokenType::ELSE);
        }
        if same_text(s, "true") {
            proof { lemma_kind_of_surface(TokenType::TRUE, s@); }
            return Some(TokenType::TRUE);
        }
        if same_text(s, "false") {
            proof { lemma_kind_of_surface(TokenType::FALSE, s@); }
            return Some(TokenType::FALSE);
        }
        if same_text(s, "return") {
            proof { lemma_kind_of_surface(TokenType::RETURN, s@); }
            return Some(TokenType::RETURN);
        }
        if same_text(s, "=") {
            proof { lemma_kind_of_surface(TokenType::ASSIGN, s@); }
            return Some(TokenType::ASSIGN);
        }
        if same_text(s, "+") {
            proof { lemma_kind_of_surface(TokenType::PLUS, s@); }
            return Some(TokenType::PLUS);
        }
        if same_text(s, "-") {
            proof { lemma_kind_of_surface(TokenType::MINUS, s@); }
            return Some(TokenType::MINUS);
        }
        if same_text(s, "!") {
            proof { lemma_kind_of_surface(TokenType::BANG, s@); }
            return Some(TokenType::BANG);
        }
        if same_text(s, "*") {
            proof { lemma_kind_of_surface(TokenType::ASTERISK, s@); }
            return Some(TokenType::ASTERISK);
        }
        if same_text(s, "/") {
            proof { lemma_kind_of_surface(TokenType::SLASH, s@); }
            return Some(TokenType::SLASH);
        }
        if same_text(s, "<") {
            proof { lemma_kind_of_surface(TokenType::LT, s@); }
            return Some(TokenType::LT);
        }
        if same_text(s, ">") {
            proof { lemma_kind_of_surface(TokenType::GT, s@); }
            return Some(TokenType::GT);
        }
        if same_text(s, "==") {
            proof { lemma_kind_of_surface(TokenType::EQ, s@); }
            return Some(TokenType::EQ);
        }
        if same_text(s, "!=") {
            proof { lemma_kind_of_surface(TokenType::NEQ, s@); }
            return Some(TokenType::NEQ);
        }
        if same_text(s, "(") {
            proof { lemma_kind_of_surface(TokenType::LPAREN, s@); }
            return Some(TokenType::LPAREN);
        }
        if same_text(s, ")") {
            proof { lemma_kind_of_surface(TokenType::RPAREN, s@); }
            return Some(TokenType::RPAREN);
        }
        if same_text(s, "{") {
            proof { lemma_kind_of_surface(TokenType::LBRACE, s@); }
            return Some(TokenType::LBRACE);
        }
        if same_text(s, "}") {
            proof { lemma_kind_of_surface(TokenType::RBRACE, s@); }
            return Some(TokenType::RBRACE);
        }
        if same_text(s, ";") {
            proof { lemma_kind_of_surface(TokenType::SEMICOLON, s@); }
            return Some(TokenType::SEMICOLON);
        }
        if same_text(s, ",") {
            proof { lemma_kind_of_surface(TokenType::COMMA, s@); }
            return Some(TokenType::COMMA);
        }
        assert forall|k: TokenType| surface_form(k) != Some(s@) by {
            match k {
                _ => {},
            }
        }
        None
    }

    /// Classifies a word: a keyword when it is spelled as one, otherwise
    /// an identifier.
    pub fn lookup_identifier(literal: &str) -> (r: TokenType)
        ensures
            r == word_kind(literal@),
    {
        match TokenType::from_surface(literal) {
            Some(k) => k,
            None => TokenType::IDENTIFIER,
        }
    }

    /// The name of this kind as diagnostics print it.
    pub fn name(&self) -> (r: &'static str)
        ensures
            r@ == kind_name(*self),
    {
        match self {
            TokenType::ILLEGAL => "ILLEGAL",
            TokenType::EOF => "EOF",
            TokenType::IDENTIFIER => "IDENTIFIER",
            TokenType::INT => "INT",
            TokenType::FUNCTION => "FUNCTION",
            TokenType::LET => "LET",
            TokenType::IF => "IF",
            TokenType::ELSE => "ELSE",
            TokenType::TRUE => "TRUE",
            TokenType::FALSE => "FALSE",
            TokenType::RETURN => "RETURN",
            TokenType::ASSIGN => "ASSIGN",
            TokenType::PLUS => "PLUS",
            TokenType::MINUS => "MINUS",
            TokenType::BANG => "BANG",
            TokenType::ASTERISK => "ASTERISK",
            TokenType::SLASH => "SLASH",
            TokenType::LT => "LT",
            TokenType::GT => "GT",
            TokenType::EQ => "EQ",
            TokenType::NEQ => "NEQ",
            TokenType::LPAREN => "LPAREN",
            TokenType::RPAREN => "RPAREN",
            TokenType::LBRACE => "LBRACE",
            TokenType::RBRACE => "RBRACE",
            TokenType::SEMICOLON => "SEMICOLON",
            TokenType::COMMA => "COMMA",
        }
    }
}

} // verus!
