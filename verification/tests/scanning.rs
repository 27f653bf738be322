use script_lexer::lexer::{Lexer, Token, TokenType};

const PROGRAM: &str = r#"let five = 5;
            let ten = 10;
            let add = fn(x, y) {
                x + y;
            };
            let result = add(five, ten);
        !-/*5;
        5 < 10 > 5;
        if (5 < 10) {
            return true;
        } else {
            return false;
        }

        10 == 10;
        10 != 9;
        "#;

fn kinds(input: &str) -> Vec<TokenType> {
    let lexer = Lexer::new(input.into());
    let tokens: Vec<Token> = lexer.into();
    tokens.into_iter().map(|t| t.token_type).collect()
}

fn ident(name: &str) -> TokenType {
    TokenType::Identifier(String::from(name))
}

fn number(digits: &str) -> TokenType {
    TokenType::Number(String::from(digits))
}

#[test]
fn get_next_token() {
    let input = "=+(){},;";
    let mut lexer = Lexer::new(input.into());

    let tokens = vec![
        TokenType::Assign,
        TokenType::Plus,
        TokenType::LParen,
        TokenType::RParen,
        TokenType::LCurly,
        TokenType::RCurly,
        TokenType::Comma,
        TokenType::Semicolon,
    ];

    for token in tokens {
        let next_token = lexer.next_token();
        println!("expected: {:?}, received {:?}", token, next_token);
        assert_eq!(token, next_token.token_type);
    }
}

#[test]
fn get_next_complete() {
    let input = r#"let five = 5;
            let ten = 10;
            let add = fn(x, y) {
                x + y;
            };
            let result = add(five, ten);
        !-/*5;
        5 < 10 > 5;
        if (5 < 10) {
            return true;
        } else {
            return false;
        }

        10 == 10;
        10 != 9;
        "#;

    let mut lex = Lexer::new(input.into());

    let tokens = vec![
        TokenType::Let,
        TokenType::Identifier(String::from("five")),
        TokenType::Assign,
        TokenType::Number(String::from("5")),
        TokenType::Semicolon,
        TokenType::Let,
        TokenType::Identifier(String::from("ten")),
        TokenType::Assign,
        TokenType::Number(String::from("10")),
        TokenType::Semicolon,
        TokenType::Let,
        TokenType::Identifier(String::from("add")),
        TokenType::Assign,
        TokenType::Function,
        TokenType::LParen,
        TokenType::Identifier(String::from("x")),
        TokenType::Comma,
        TokenType::Identifier(String::from("y")),
        TokenType::RParen,
        TokenType::LCurly,
        TokenType::Identifier(String::from("x")),
        TokenType::Plus,
        TokenType::Identifier(String::from("y")),
        TokenType::Semicolon,
        TokenType::RCurly,
        TokenType::Semicolon,
        TokenType::Let,
        TokenType::Identifier(String::from("result")),
        TokenType::Assign,
        TokenType::Identifier(String::from("add")),
        TokenType::LParen,
        TokenType::Identifier(String::from("five")),
        TokenType::Comma,
        TokenType::Identifier(String::from("ten")),
        TokenType::RParen,
        TokenType::Semicolon,
        TokenType::Bang,
        TokenType::Minus,
        TokenType::FSlash,
        TokenType::Asterisk,
        TokenType::Number(String::from("5")),
        TokenType::Semicolon,
        TokenType::Number(String::from("5")),
        TokenType::LessThan,
        TokenType::Number(String::from("10")),
        TokenType::GreaterThan,
        TokenType::Number(String::from("5")),
        TokenType::Semicolon,
        TokenType::If,
        TokenType::LParen,
        TokenType::Number(String::from("5")),
        TokenType::LessThan,
        TokenType::Number(String::from("10")),
        TokenType::RParen,
        TokenType::LCurly,
        TokenType::Return,
        TokenType::True,
        TokenType::Semicolon,
        TokenType::RCurly,
        TokenType::Else,
        TokenType::LCurly,
        TokenType::Return,
        TokenType::False,
        TokenType::Semicolon,
        TokenType::RCurly,
        TokenType::Number(String::from("10")),
        TokenType::Equal,
        TokenType::Number(String::from("10")),
        TokenType::Semicolon,
        TokenType::Number(String::from("10")),
        TokenType::NotEqual,
        TokenType::Number(String::from("9")),
        TokenType::Semicolon,
        TokenType::EOF,
    ];

    for token in tokens {
        let next_token = lex.next_token();
        println!(
            "expected: {:?}, received {:?}",
            token, next_token.token_type
        );
        assert_eq!(token, next_token.token_type);
    }
}

#[test]
fn get_all_token() {
    let input = r#"let five = 5;
            let ten = 10;
            let add = fn(x, y) {
                x + y;
            };
            let result = add(five, ten);
        !-/*5;
        5 < 10 > 5;
        if (5 < 10) {
            return true;
        } else {
            return false;
        }

        10 == 10;
        10 != 9;
        "#;

    let lex = Lexer::new(input.into());
    let tokens: Vec<Token> = lex.into();
    println!("{:?}", tokens);

    assert_eq!(tokens.len(), 74);
    assert_eq!(tokens[0].token_type, TokenType::Let);
    assert_eq!(tokens[73].token_type, TokenType::EOF);
    assert_eq!(
        tokens.iter().filter(|t| matches!(t.token_type, TokenType::EOF)).count(),
        1
    );
}

#[test]
fn let_statement() {
    assert_eq!(
        kinds("let five = 5;"),
        vec![
            TokenType::Let,
            ident("five"),
            TokenType::Assign,
            number("5"),
            TokenType::Semicolon,
            TokenType::EOF,
        ]
    );
}

#[test]
fn equality_statement() {
    assert_eq!(
        kinds("10 == 10;"),
        vec![number("10"), TokenType::Equal, number("10"), TokenType::Semicolon, TokenType::EOF]
    );
}

#[test]
fn operators_in_a_row() {
    assert_eq!(
        kinds("!-/*5;"),
        vec![
            TokenType::Bang,
            TokenType::Minus,
            TokenType::FSlash,
            TokenType::Asterisk,
            number("5"),
            TokenType::Semicolon,
            TokenType::EOF,
        ]
    );
}

#[test]
fn illegal_byte() {
    let lexer = Lexer::new("@".into());
    let tokens: Vec<Token> = lexer.into();
    assert_eq!(tokens.len(), 2);
    assert_eq!(tokens[0].token_type, TokenType::Illegal);
    assert_eq!(tokens[0].literal, "@");
    assert_eq!(tokens[0].tag, "operator");
    assert_eq!(tokens[0].position.line, 1);
    assert_eq!(tokens[0].position.column, 1);
    assert_eq!(tokens[0].position.width, 1);
    assert_eq!(tokens[1].token_type, TokenType::EOF);
}

#[test]
fn empty_input_is_one_eof() {
    let mut lexer = Lexer::new(String::new());
    let token = lexer.next_token();
    assert_eq!(token.token_type, TokenType::EOF);
    assert_eq!(token.literal, "");
    assert_eq!(token.tag, "operator");
    assert_eq!(token.position.line, 1);
    assert_eq!(token.position.column, 1);
    assert_eq!(token.position.width, 0);
    assert_eq!(kinds(""), vec![TokenType::EOF]);
}

#[test]
fn whitespace_only_is_one_eof() {
    let mut lexer = Lexer::new(" \t\r\n\x0C ".into());
    let token = lexer.next_token();
    assert_eq!(token.token_type, TokenType::EOF);
    assert_eq!(token.position.line, 2);
    assert_eq!(token.position.column, 3);
    assert_eq!(token.position.width, 0);
}

#[test]
fn eof_is_repeated_unchanged() {
    let mut lexer = Lexer::new("x \n ".into());
    assert_eq!(lexer.next_token().token_type, ident("x"));
    let first = lexer.next_token();
    assert_eq!(first.token_type, TokenType::EOF);
    for _ in 0..5 {
        let again = lexer.next_token();
        assert_eq!(again.token_type, TokenType::EOF);
        assert_eq!(again.literal, first.literal);
        assert_eq!(again.tag, first.tag);
        assert_eq!(again.position.line, first.position.line);
        assert_eq!(again.position.column, first.position.column);
        assert_eq!(again.position.width, first.position.width);
    }
}

#[test]
fn nul_byte_ends_the_scan() {
    let mut lexer = Lexer::new("a\0b".into());
    assert_eq!(lexer.next_token().token_type, ident("a"));
    let end = lexer.next_token();
    assert_eq!(end.token_type, TokenType::EOF);
    assert_eq!(end.literal, "");
    assert_eq!(end.position.column, 2);
    assert_eq!(end.position.width, 0);
    assert_eq!(lexer.next_token().token_type, TokenType::EOF);
    assert_eq!(kinds("a\0b"), vec![ident("a"), TokenType::EOF]);
}

#[test]
fn token_count_is_bounded_by_input_length() {
    for input in ["", "a", "+-*/", "a b c", "== = =", "@@@@", PROGRAM, "\n\n\n", "x1 y2"] {
        let lexer = Lexer::new(input.into());
        let tokens: Vec<Token> = lexer.into();
        assert!(tokens.len() >= 1);
        assert!(tokens.len() <= input.len() + 1);
        let last = tokens.len() - 1;
        assert_eq!(tokens[last].token_type, TokenType::EOF);
        for token in &tokens[..last] {
            assert_ne!(token.token_type, TokenType::EOF);
        }
    }
}

#[test]
fn every_keyword_has_its_kind() {
    assert_eq!(
        kinds("fn let if elif else true false return"),
        vec![
            TokenType::Function,
            TokenType::Let,
            TokenType::If,
            TokenType::Elif,
            TokenType::Else,
            TokenType::True,
            TokenType::False,
            TokenType::Return,
            TokenType::EOF,
        ]
    );
}

#[test]
fn near_keywords_are_identifiers() {
    assert_eq!(
        kinds("fnx Let iff el _ _if return_ true1 f1_A"),
        vec![
            ident("fnx"),
            ident("Let"),
            ident("iff"),
            ident("el"),
            ident("_"),
            ident("_if"),
            ident("return_"),
            ident("true1"),
            ident("f1_A"),
            TokenType::EOF,
        ]
    );
}

#[test]
fn tags_go_with_kinds() {
    let lexer = Lexer::new("let x = 12 ; true false fn return if elif else @".into());
    let tokens: Vec<Token> = lexer.into();
    let tags: Vec<&str> = tokens.iter().map(|t| t.tag.as_str()).collect();
    assert_eq!(
        tags,
        vec![
            "keyword",
            "identifier",
            "operator",
            "number",
            "operator",
            "boolean",
            "boolean",
            "keyword",
            "keyword",
            "keyword",
            "keyword",
            "keyword",
            "operator",
            "operator",
        ]
    );
}

#[test]
fn two_byte_operators() {
    assert_eq!(
        kinds("== != <= >="),
        vec![
            TokenType::Equal,
            TokenType::NotEqual,
            TokenType::LessThanOrEqual,
            TokenType::GreaterThanOrEqual,
            TokenType::EOF,
        ]
    );
    let lexer = Lexer::new("a<=b".into());
    let tokens: Vec<Token> = lexer.into();
    assert_eq!(tokens[1].token_type, TokenType::LessThanOrEqual);
    assert_eq!(tokens[1].literal, "<=");
    assert_eq!(tokens[1].position.column, 2);
    assert_eq!(tokens[1].position.width, 2);
    assert_eq!(tokens[2].token_type, ident("b"));
    assert_eq!(tokens[2].position.column, 4);
}

#[test]
fn one_byte_operators_stand_alone() {
    assert_eq!(
        kinds("= ! < >"),
        vec![
            TokenType::Assign,
            TokenType::Bang,
            TokenType::LessThan,
            TokenType::GreaterThan,
            TokenType::EOF,
        ]
    );
    assert_eq!(kinds("=!"), vec![TokenType::Assign, TokenType::Bang, TokenType::EOF]);
    assert_eq!(kinds("<>"), vec![TokenType::LessThan, TokenType::GreaterThan, TokenType::EOF]);
    assert_eq!(kinds("= ="), vec![TokenType::Assign, TokenType::Assign, TokenType::EOF]);
    assert_eq!(kinds("==="), vec![TokenType::Equal, TokenType::Assign, TokenType::EOF]);
    assert_eq!(kinds("!=="), vec![TokenType::NotEqual, TokenType::Assign, TokenType::EOF]);
    assert_eq!(kinds("=<="), vec![TokenType::Assign, TokenType::LessThanOrEqual, TokenType::EOF]);
    assert_eq!(kinds(">"), vec![TokenType::GreaterThan, TokenType::EOF]);
}

#[test]
fn line_and_column_tracking() {
    let mut lexer = Lexer::new("a\nb".into());
    let a = lexer.next_token();
    assert_eq!(a.token_type, ident("a"));
    assert_eq!(a.position.line, 1);
    assert_eq!(a.position.column, 1);
    assert_eq!(a.position.width, 1);
    let b = lexer.next_token();
    assert_eq!(b.token_type, ident("b"));
    assert_eq!(b.position.line, 2);
    assert_eq!(b.position.column, 1);
    assert_eq!(b.position.width, 1);
    let end = lexer.next_token();
    assert_eq!(end.token_type, TokenType::EOF);
    assert_eq!(end.position.line, 2);
    assert_eq!(end.position.column, 2);
}

#[test]
fn positions_of_a_small_program() {
    let lexer = Lexer::new("let five = 5;\n  five >= 10\n\n\tfn".into());
    let tokens: Vec<Token> = lexer.into();
    let places: Vec<(usize, usize, usize)> = tokens
        .iter()
        .map(|t| (t.position.line, t.position.column, t.position.width))
        .collect();
    assert_eq!(
        places,
        vec![
            (1, 1, 3),
            (1, 5, 4),
            (1, 10, 1),
            (1, 12, 1),
            (1, 13, 1),
            (2, 3, 4),
            (2, 8, 2),
            (2, 11, 2),
            (4, 2, 2),
            (4, 4, 0),
        ]
    );
    let literals: Vec<&str> = tokens.iter().map(|t| t.literal.as_str()).collect();
    assert_eq!(literals, vec!["let", "five", "=", "5", ";", "five", ">=", "10", "fn", ""]);
}

#[test]
fn width_is_the_length_of_the_literal() {
    let lexer = Lexer::new("alpha_1 <= 0042 ; \u{e9} ~".into());
    let tokens: Vec<Token> = lexer.into();
    for token in &tokens {
        assert_eq!(token.position.width, token.literal.len());
        assert!(token.position.line >= 1);
        assert!(token.position.column >= 1);
    }
}

#[test]
fn numbers_keep_their_digits() {
    assert_eq!(kinds("0042"), vec![number("0042"), TokenType::EOF]);
    assert_eq!(kinds("12ab"), vec![number("12"), ident("ab"), TokenType::EOF]);
    assert_eq!(kinds("ab12"), vec![ident("ab12"), TokenType::EOF]);
    assert_eq!(
        kinds("1.5"),
        vec![number("1"), TokenType::Illegal, number("5"), TokenType::EOF]
    );
}

#[test]
fn bytes_outside_ascii_are_illegal_one_by_one() {
    let lexer = Lexer::new("\u{e9}x".into());
    let tokens: Vec<Token> = lexer.into();
    assert_eq!(tokens.len(), 4);
    for token in &tokens[..2] {
        assert_eq!(token.token_type, TokenType::Illegal);
        assert_eq!(token.literal, "\u{FFFD}");
        assert_eq!(token.position.width, 3);
        assert_eq!(token.position.line, 1);
    }
    assert_eq!(tokens[0].position.column, 1);
    assert_eq!(tokens[1].position.column, 2);
    assert_eq!(tokens[2].token_type, ident("x"));
    assert_eq!(tokens[2].position.column, 3);
    assert_eq!(tokens[3].token_type, TokenType::EOF);
}

#[test]
fn every_byte_of_a_longer_character_is_replaced() {
    for text in ["\u{e9}", "\u{20ac}", "\u{1F600}", "\u{e9}\u{20ac}"] {
        let lexer = Lexer::new(text.into());
        let tokens: Vec<Token> = lexer.into();
        assert_eq!(tokens.len(), text.len() + 1);
        for (i, token) in tokens[..text.len()].iter().enumerate() {
            assert_eq!(token.token_type, TokenType::Illegal);
            assert_eq!(token.literal, "\u{FFFD}");
            assert_eq!(token.literal.len(), 3);
            assert_eq!(token.position.width, 3);
            assert_eq!(token.position.column, i + 1);
        }
        assert_eq!(tokens[text.len()].token_type, TokenType::EOF);
        assert_eq!(tokens[text.len()].position.column, text.len() + 1);
    }
}

#[test]
fn literals_are_the_source_text() {
    let lexer = Lexer::new("five_5 0042 >= ; @".into());
    let tokens: Vec<Token> = lexer.into();
    let literals: Vec<&str> = tokens.iter().map(|t| t.literal.as_str()).collect();
    assert_eq!(literals, vec!["five_5", "0042", ">=", ";", "@", ""]);
}

#[test]
fn unknown_ascii_bytes_are_illegal() {
    for text in [".", "@", "#", "\"", "'", "[", "]", "&", "|", "~", "\x0B", "\x01", "\x7F"] {
        let lexer = Lexer::new(text.into());
        let tokens: Vec<Token> = lexer.into();
        assert_eq!(tokens.len(), 2, "{:?}", text);
        assert_eq!(tokens[0].token_type, TokenType::Illegal);
        assert_eq!(tokens[0].literal, text);
        assert_eq!(tokens[0].position.width, 1);
    }
}

#[test]
fn scanning_goes_on_after_an_illegal_byte() {
    assert_eq!(
        kinds("a @ b"),
        vec![ident("a"), TokenType::Illegal, ident("b"), TokenType::EOF]
    );
}

#[test]
fn draining_starts_where_the_scanner_stands() {
    let mut lexer = Lexer::new("let x = 1;".into());
    assert_eq!(lexer.next_token().token_type, TokenType::Let);
    assert_eq!(lexer.next_token().token_type, ident("x"));
    let rest: Vec<Token> = lexer.into();
    let rest: Vec<TokenType> = rest.into_iter().map(|t| t.token_type).collect();
    assert_eq!(rest, vec![TokenType::Assign, number("1"), TokenType::Semicolon, TokenType::EOF]);
}

#[test]
fn tokens_outlive_the_scanner() {
    let token = {
        let mut lexer = Lexer::new(String::from("name"));
        lexer.next_token()
    };
    let copy = token.clone();
    assert_eq!(copy.literal, "name");
    assert_eq!(copy.token_type, ident("name"));
    assert_eq!(copy.tag, "identifier");
}
