use monkey::lexer::Lexer;
use monkey::token::{Token, TokenType};

fn kinds_and_texts(input: &str) -> Vec<(TokenType, String)> {
    let mut l = Lexer::new(input);
    let mut out = Vec::new();
    loop {
        let t = l.next_token();
        let done = t.token_type == TokenType::EOF;
        out.push((t.token_type, t.literal));
        if done {
            return out;
        }
    }
}

#[test]
fn test_next_token() {
    let input = "\
            let five = 5;
            let ten = 10;
            let add = fn(x, y) {
                x+y;
            };
            let result = add(five, ten);

            !-/*5;
            5 < 10 > 5;

            if (5 < 10) {
               return true;
            } else {
               return false;
            }

            10 == 10;
            10 != 9;
        ";
    let expected = [
        Token {
            token_type: TokenType::LET,
            literal: "let".to_string(),
        },
        Token {
            token_type: TokenType::IDENTIFIER,
            literal: "five".to_string(),
        },
        Token {
            token_type: TokenType::ASSIGN,
            literal: "=".to_string(),
        },
        Token {
            token_type: TokenType::INT,
            literal: "5".to_string(),
        },
        Token {
            token_type: TokenType::SEMICOLON,
            literal: ";".to_string(),
        },
        Token {
            token_type: TokenType::LET,
            literal: "let".to_string(),
        },
        Token {
            token_type: TokenType::IDENTIFIER,
            literal: "ten".to_string(),
        },
        Token {
            token_type: TokenType::ASSIGN,
            literal: "=".to_string(),
        },
        Token {
            token_type: TokenType::INT,
            literal: "10".to_string(),
        },
        Token {
            token_type: TokenType::SEMICOLON,
            literal: ";".to_string(),
        },
        Token {
            token_type: TokenType::LET,
            literal: "let".to_string(),
        },
        Token {
            token_type: TokenType::IDENTIFIER,
            literal: "add".to_string(),
        },
        Token {
            token_type: TokenType::ASSIGN,
            literal: "=".to_string(),
        },
        Token {
            token_type: TokenType::FUNCTION,
            literal: "fn".to_string(),
        },
        Token {
            token_type: TokenType::LPAREN,
            literal: "(".to_string(),
        },
        Token {
            token_type: TokenType::IDENTIFIER,
            literal: "x".to_string(),
        },
        Token {
            token_type: TokenType::COMMA,
            literal: ",".to_string(),
        },
        Token {
            token_type: TokenType::IDENTIFIER,
            literal: "y".to_string(),
        },
        Token {
            token_type: TokenType::RPAREN,
            literal: ")".to_string(),
        },
        Token {
            token_type: TokenType::LBRACE,
            literal: "{".to_string(),
        },
        Token {
            token_type: TokenType::IDENTIFIER,
            literal: "x".to_string(),
        },
        Token {
            token_type: TokenType::PLUS,
            literal: "+".to_string(),
        },
        Token {
            token_type: TokenType::IDENTIFIER,
            literal: "y".to_string(),
        },
        Token {
            token_type: TokenType::SEMICOLON,
            literal: ";".to_string(),
        },
        Token {
            token_type: TokenType::RBRACE,
            literal: "}".to_string(),
        },
        Token {
            token_type: TokenType::SEMICOLON,
            literal: ";".to_string(),
        },
        Token {
            token_type: TokenType::LET,
            literal: "let".to_string(),
        },
        Token {
            token_type: TokenType::IDENTIFIER,
            literal: "result".to_string(),
        },
        Token {
            token_type: TokenType::ASSIGN,
            literal: "=".to_string(),
        },
        Token {
            token_type: TokenType::IDENTIFIER,
            literal: "add".to_string(),
        },
        Token {
            token_type: TokenType::LPAREN,
            literal: "(".to_string(),
        },
        Token {
            token_type: TokenType::IDENTIFIER,
            literal: "five".to_string(),
        },
        Token {
            token_type: TokenType::COMMA,
            literal: ",".to_string(),
        },
        Token {
            token_type: TokenType::IDENTIFIER,
            literal: "ten".to_string(),
        },
        Token {
            token_type: TokenType::RPAREN,
            literal: ")".to_string(),
        },
        Token {
            token_type: TokenType::SEMICOLON,
            literal: ";".to_string(),
        },
        Token {
            token_type: TokenType::BANG,
            literal: "!".to_string(),
        },
        Token {
            token_type: TokenType::MINUS,
            literal: "-".to_string(),
        },
        Token {
            token_type: TokenType::SLASH,
            literal: "/".to_string(),
        },
        Token {
            token_type: TokenType::ASTERISK,
            literal: "*".to_string(),
        },
        Token {
            token_type: TokenType::INT,
            literal: "5".to_string(),
        },
        Token {
            token_type: TokenType::SEMICOLON,
            literal: ";".to_string(),
        },
        Token {
            token_type: TokenType::INT,
            literal: "5".to_string(),
        },
        Token {
            token_type: TokenType::LT,
            literal: "<".to_string(),
        },
        Token {
            token_type: TokenType::INT,
            literal: "10".to_string(),
        },
        Token {
            token_type: TokenType::GT,
            literal: ">".to_string(),
        },
        Token {
            token_type: TokenType::INT,
            literal: "5".to_string(),
        },
        Token {
            token_type: TokenType::SEMICOLON,
            literal: ";".to_string(),
        },
        Token {
            token_type: TokenType::IF,
            literal: "if".to_string(),
        },
        Token {
            token_type: TokenType::LPAREN,
            literal: "(".to_string(),
        },
        Token {
            token_type: TokenType::INT,
            literal: "5".to_string(),
        },
        Token {
            token_type: TokenType::LT,
            literal: "<".to_string(),
        },
        Token {
            token_type: TokenType::INT,
            literal: "10".to_string(),
        },
        Token {
            token_type: TokenType::RPAREN,
            literal: ")".to_string(),
        },
        Token {
            token_type: TokenType::LBRACE,
            literal: "{".to_string(),
        },
        Token {
            token_type: TokenType::RETURN,
            literal: "return".to_string(),
        },
        Token {
            token_type: TokenType::TRUE,
            literal: "true".to_string(),
        },
        Token {
            token_type: TokenType::SEMICOLON,
            literal: ";".to_string(),
        },
        Token {
            token_type: TokenType::RBRACE,
            literal: "}".to_string(),
        },
        Token {
            token_type: TokenType::ELSE,
            literal: "else".to_string(),
        },
        Token {
            token_type: TokenType::LBRACE,
            literal: "{".to_string(),
        },
        Token {
            token_type: TokenType::RETURN,
            literal: "return".to_string(),
        },
        Token {
            token_type: TokenType::FALSE,
            literal: "false".to_string(),
        },
        Token {
            token_type: TokenType::SEMICOLON,
            literal: ";".to_string(),
        },
        Token {
            token_type: TokenType::RBRACE,
            literal: "}".to_string(),
        },
        Token {
            token_type: TokenType::INT,
            literal: "10".to_string(),
        },
        Token {
            token_type: TokenType::EQ,
            literal: "==".to_string(),
        },
        Token {
            token_type: TokenType::INT,
            literal: "10".to_string(),
        },
        Token {
            token_type: TokenType::SEMICOLON,
            literal: ";".to_string(),
        },
        Token {
            token_type: TokenType::INT,
            literal: "10".to_string(),
        },
        Token {
            token_type: TokenType::NEQ,
            literal: "!=".to_string(),
        },
        Token {
            token_type: TokenType::INT,
            literal: "9".to_string(),
        },
        Token {
            token_type: TokenType::SEMICOLON,
            literal: ";".to_string(),
        },
        Token {
            token_type: TokenType::EOF,
            literal: "EOF".to_string(),
        },
    ];

    let mut l = Lexer::new(input);

    for i in 0..expected.len() {
        let token = l.next_token();
        println!("{:?}", token);
        assert_eq!(token, expected[i]);
    }
}

#[test]
fn eof_repeats_after_exhaustion() {
    let mut l = Lexer::new("x");
    let first = l.next_token();
    assert_eq!(first.token_type, TokenType::IDENTIFIER);
    assert_eq!(first.literal, "x");
    for _ in 0..5 {
        let t = l.next_token();
        assert_eq!(t.token_type, TokenType::EOF);
        assert_eq!(t.literal, "EOF");
    }
}

#[test]
fn empty_and_blank_input_give_eof() {
    let mut l = Lexer::new("");
    assert_eq!(l.next_token(), Token { token_type: TokenType::EOF, literal: "EOF".to_string() });
    let mut l = Lexer::new(" \t\n  ");
    assert_eq!(l.next_token(), Token { token_type: TokenType::EOF, literal: "EOF".to_string() });
    assert_eq!(l.next_token(), Token { token_type: TokenType::EOF, literal: "EOF".to_string() });
}

#[test]
fn double_equals_is_one_token() {
    let toks = kinds_and_texts("==");
    assert_eq!(toks, vec![(TokenType::EQ, "==".to_string()), (TokenType::EOF, "EOF".to_string())]);
}

#[test]
fn bang_equals_is_one_token() {
    let toks = kinds_and_texts("!=");
    assert_eq!(toks, vec![(TokenType::NEQ, "!=".to_string()), (TokenType::EOF, "EOF".to_string())]);
}

#[test]
fn lone_assign_and_bang_stay_single() {
    let toks = kinds_and_texts("= ! =!");
    assert_eq!(
        toks,
        vec![
            (TokenType::ASSIGN, "=".to_string()),
            (TokenType::BANG, "!".to_string()),
            (TokenType::ASSIGN, "=".to_string()),
            (TokenType::BANG, "!".to_string()),
            (TokenType::EOF, "EOF".to_string()),
        ]
    );
}

#[test]
fn three_equals_is_eq_then_assign() {
    let toks = kinds_and_texts("===");
    assert_eq!(
        toks,
        vec![
            (TokenType::EQ, "==".to_string()),
            (TokenType::ASSIGN, "=".to_string()),
            (TokenType::EOF, "EOF".to_string()),
        ]
    );
}

#[test]
fn keyword_then_identifier() {
    let toks = kinds_and_texts("let x = 5;");
    assert_eq!(
        toks,
        vec![
            (TokenType::LET, "let".to_string()),
            (TokenType::IDENTIFIER, "x".to_string()),
            (TokenType::ASSIGN, "=".to_string()),
            (TokenType::INT, "5".to_string()),
            (TokenType::SEMICOLON, ";".to_string()),
            (TokenType::EOF, "EOF".to_string()),
        ]
    );
}

#[test]
fn keyword_prefix_is_identifier() {
    let toks = kinds_and_texts("letx = 5;");
    assert_eq!(toks[0], (TokenType::IDENTIFIER, "letx".to_string()));
    assert_eq!(toks[1], (TokenType::ASSIGN, "=".to_string()));
    assert_eq!(toks.len(), 5);
}

#[test]
fn word_and_number_at_end_of_input() {
    let toks = kinds_and_texts("abc 123");
    assert_eq!(
        toks,
        vec![
            (TokenType::IDENTIFIER, "abc".to_string()),
            (TokenType::INT, "123".to_string()),
            (TokenType::EOF, "EOF".to_string()),
        ]
    );
}

#[test]
fn digits_then_letters_split() {
    let toks = kinds_and_texts("12ab");
    assert_eq!(toks[0], (TokenType::INT, "12".to_string()));
    assert_eq!(toks[1], (TokenType::IDENTIFIER, "ab".to_string()));
}

#[test]
fn unknown_character_is_illegal_and_consumed() {
    let toks = kinds_and_texts("a@b");
    assert_eq!(
        toks,
        vec![
            (TokenType::IDENTIFIER, "a".to_string()),
            (TokenType::ILLEGAL, "@".to_string()),
            (TokenType::IDENTIFIER, "b".to_string()),
            (TokenType::EOF, "EOF".to_string()),
        ]
    );
}

#[test]
fn non_ascii_letters_form_words() {
    let toks = kinds_and_texts("héllo + ñ");
    assert_eq!(
        toks,
        vec![
            (TokenType::IDENTIFIER, "héllo".to_string()),
            (TokenType::PLUS, "+".to_string()),
            (TokenType::IDENTIFIER, "ñ".to_string()),
            (TokenType::EOF, "EOF".to_string()),
        ]
    );
}

#[test]
fn literal_class_names_are_identifiers() {
    assert_eq!(TokenType::lookup_identifier("EOF"), TokenType::IDENTIFIER);
    assert_eq!(TokenType::lookup_identifier("INT"), TokenType::IDENTIFIER);
    let toks = kinds_and_texts("EOF x");
    assert_eq!(toks[0], (TokenType::IDENTIFIER, "EOF".to_string()));
    assert_eq!(toks[1], (TokenType::IDENTIFIER, "x".to_string()));
}

#[test]
fn lookup_identifier_classifies_words() {
    assert_eq!(TokenType::lookup_identifier("fn"), TokenType::FUNCTION);
    assert_eq!(TokenType::lookup_identifier("let"), TokenType::LET);
    assert_eq!(TokenType::lookup_identifier("if"), TokenType::IF);
    assert_eq!(TokenType::lookup_identifier("else"), TokenType::ELSE);
    assert_eq!(TokenType::lookup_identifier("true"), TokenType::TRUE);
    assert_eq!(TokenType::lookup_identifier("false"), TokenType::FALSE);
    assert_eq!(TokenType::lookup_identifier("return"), TokenType::RETURN);
    assert_eq!(TokenType::lookup_identifier("lets"), TokenType::IDENTIFIER);
    assert_eq!(TokenType::lookup_identifier("Let"), TokenType::IDENTIFIER);
    assert_eq!(TokenType::lookup_identifier(""), TokenType::IDENTIFIER);
}

#[test]
fn surface_table_round_trips() {
    let all = [
        TokenType::ILLEGAL, TokenType::EOF, TokenType::IDENTIFIER, TokenType::INT,
        TokenType::FUNCTION, TokenType::LET, TokenType::IF, TokenType::ELSE, TokenType::TRUE,
        TokenType::FALSE, TokenType::RETURN, TokenType::ASSIGN, TokenType::PLUS, TokenType::MINUS,
        TokenType::BANG, TokenType::ASTERISK, TokenType::SLASH, TokenType::LT, TokenType::GT,
        TokenType::EQ, TokenType::NEQ, TokenType::LPAREN, TokenType::RPAREN, TokenType::LBRACE,
        TokenType::RBRACE, TokenType::SEMICOLON, TokenType::COMMA,
    ];
    let mut spelled = 0;
    for k in all {
        match k.surface() {
            Some(s) => {
                spelled += 1;
                assert_eq!(TokenType::from_surface(s), Some(k));
            }
            None => assert!(matches!(
                k,
                TokenType::ILLEGAL | TokenType::EOF | TokenType::IDENTIFIER | TokenType::INT
            )),
        }
    }
    assert_eq!(spelled, 23);
    assert_eq!(TokenType::LET.surface(), Some("let"));
    assert_eq!(TokenType::NEQ.surface(), Some("!="));
    assert_eq!(TokenType::from_surface("EOF"), None);
    assert_eq!(TokenType::from_surface("=>"), None);
}

#[test]
fn kind_names() {
    assert_eq!(TokenType::IDENTIFIER.name(), "IDENTIFIER");
    assert_eq!(TokenType::SEMICOLON.name(), "SEMICOLON");
    assert_eq!(TokenType::EOF.name(), "EOF");
}
