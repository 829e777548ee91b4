use rlox::errors::ScannerError;
use rlox::scanner::Scanner;
use rlox::token::{Literal, Token, TokenType};

fn scan(code: &str) -> (Vec<Token>, Vec<ScannerError>) {
    Scanner::new(code.to_string()).scan_tokens()
}

fn first_token_type(code: &str) -> TokenType {
    let (tokens, errors) = scan(code);
    assert_eq!(errors.len(), 0);
    tokens.get(0).unwrap().token_type
}

#[test]
fn scanner_has_only_eof_token_for_empty_source() {
    let scanner = Scanner::new("".to_string());
    let (tokens, errors) = scanner.scan_tokens();

    assert_eq!(errors.len(), 0);
    assert_eq!(tokens.len(), 1);
    let token = tokens.get(0).unwrap();
    assert_eq!(token.token_type, TokenType::Eof);
}

#[test]
fn mod_has_only_eof_token_for_empty_source() {
    let scanner = Scanner::new("".to_string());
    let (tokens, errors) = scanner.scan_tokens();

    assert_eq!(errors.len(), 0);
    assert_eq!(tokens.len(), 1);
    let token = tokens.get(0).unwrap();
    assert_eq!(token.token_type, TokenType::Eof);
}

#[test]
fn scanner_error_on_unknown_character() {
    let scanner = Scanner::new("%".to_string());
    let (tokens, errors) = scanner.scan_tokens();
    assert_eq!(tokens.len(), 1); // Eof token
    assert_eq!(errors.len(), 1);
}

#[test]
fn mod_error_on_unknown_character() {
    let scanner = Scanner::new("%".to_string());
    let (tokens, errors) = scanner.scan_tokens();
    assert_eq!(tokens.len(), 1); // Eof token
    assert_eq!(errors.len(), 1);
}

#[test]
fn line_numbers() {
    let scanner = Scanner::new("123.4\nsome_ident\n\"some string\"".to_string());
    let (mut tokens, errors) = scanner.scan_tokens();

    assert_eq!(errors.len(), 0);
    tokens.pop(); // Remove the Eof token since we don't really care about its line number

    for (i, token) in tokens.iter().enumerate() {
        assert_eq!(token.line, i + 1);
    }
}

#[test]
fn scanner_string() {
    let scanner = Scanner::new("\"some string\"".to_string());
    let (tokens, errors) = scanner.scan_tokens();

    assert_eq!(errors.len(), 0);
    let token = tokens.get(0).unwrap();

    assert_eq!(token.token_type, TokenType::String);

    match token.literal {
        Some(Literal::String(ref value)) => assert_eq!(value, "some string"),
        _ => assert!(false, "Should be a Literal::String"),
    }
}

#[test]
fn mod_string() {
    let scanner = Scanner::new("\"some string\"".to_string());
    let (tokens, errors) = scanner.scan_tokens();

    assert_eq!(errors.len(), 0);
    let token = tokens.get(0).unwrap();

    assert_eq!(token.token_type, TokenType::String);

    match token.literal {
        Some(Literal::String(ref value)) => assert_eq!(value, "some string"),
        _ => assert!(false, "Should be a Literal::String"),
    }
}

#[test]
fn scanner_number() {
    let scanner = Scanner::new("123.45".to_string());
    let (tokens, errors) = scanner.scan_tokens();

    assert_eq!(errors.len(), 0);
    let token = tokens.get(0).unwrap();

    assert_eq!(token.token_type, TokenType::Number);

    match token.literal {
        Some(Literal::Number(value)) => assert_eq!(f64::from_bits(value.bits), 123.45),
        _ => assert!(false, "Should be a Literal::Number"),
    }
}

#[test]
fn mod_number() {
    let scanner = Scanner::new("123.45".to_string());
    let (tokens, errors) = scanner.scan_tokens();

    assert_eq!(errors.len(), 0);
    let token = tokens.get(0).unwrap();

    assert_eq!(token.token_type, TokenType::Number);

    match token.literal {
        Some(Literal::Number(value)) => assert_eq!(f64::from_bits(value.bits), 123.45),
        _ => assert!(false, "Should be a Literal::Number"),
    }
}

#[test]
fn scanner_identifier() {
    let scanner = Scanner::new("my_var".to_string());
    let (tokens, errors) = scanner.scan_tokens();

    assert_eq!(errors.len(), 0);
    let token = tokens.get(0).unwrap();

    assert_eq!(token.token_type, TokenType::Identifier);
    assert_eq!(token.lexeme, "my_var");
}

#[test]
fn mod_identifier() {
    let scanner = Scanner::new("my_var".to_string());
    let (tokens, errors) = scanner.scan_tokens();

    assert_eq!(errors.len(), 0);
    let token = tokens.get(0).unwrap();

    assert_eq!(token.token_type, TokenType::Identifier);
    assert_eq!(token.lexeme, "my_var");
}

#[test]
fn comments() {
    let (tokens, errors) = scan("// some comment");

    assert_eq!(errors.len(), 0);
    assert_eq!(tokens.len(), 1); // Single eof token
}

#[test]
fn white_space() {
    let (tokens, errors) = scan("\n\r \t");

    assert_eq!(errors.len(), 0);
    assert_eq!(tokens.len(), 1); // Single eof token
}

#[test]
fn unterminated_string_is_one_error_and_no_token() {
    let (tokens, errors) = scan("\"unterminated");

    assert_eq!(tokens.len(), 1);
    assert_eq!(tokens[0].token_type, TokenType::Eof);
    assert_eq!(errors.len(), 1);
    assert_eq!(errors[0].to_string(), "[line 1] ScannerError: Unterminated string");
}

#[test]
fn unterminated_string_reports_the_line_it_ends_on() {
    let (tokens, errors) = scan("var a;\n\"one\ntwo");

    assert_eq!(tokens.len(), 4);
    assert_eq!(errors.len(), 1);
    assert_eq!(errors[0].to_string(), "[line 3] ScannerError: Unterminated string");
    assert_eq!(tokens[3].line, 3);
}

#[test]
fn scanning_goes_on_after_an_error() {
    let (tokens, errors) = scan("1 % 2 # 3");

    assert_eq!(tokens.len(), 4);
    assert_eq!(errors.len(), 2);
    assert_eq!(errors[0].to_string(), "[line 1] ScannerError: Invalid character: %");
    assert_eq!(errors[1].to_string(), "[line 1] ScannerError: Invalid character: #");
}

#[test]
fn operators_take_the_longest_match() {
    let (tokens, errors) = scan("!= == <= >= ! = < > ===");
    let types: Vec<TokenType> = tokens.iter().map(|token| token.token_type).collect();

    assert_eq!(errors.len(), 0);
    assert_eq!(
        types,
        vec![
            TokenType::BangEqual,
            TokenType::EqualEqual,
            TokenType::LessEqual,
            TokenType::GreaterEqual,
            TokenType::Bang,
            TokenType::Equal,
            TokenType::Less,
            TokenType::Greater,
            TokenType::EqualEqual,
            TokenType::Equal,
            TokenType::Eof,
        ]
    );
}

#[test]
fn a_dot_without_digits_ends_the_number() {
    let (tokens, errors) = scan("1.");
    let types: Vec<TokenType> = tokens.iter().map(|token| token.token_type).collect();

    assert_eq!(errors.len(), 0);
    assert_eq!(types, vec![TokenType::Number, TokenType::Dot, TokenType::Eof]);
    assert_eq!(tokens[0].lexeme, "1");
}

#[test]
fn string_lexeme_keeps_the_quotes() {
    let (tokens, _) = scan("\"a\nb\" x");

    assert_eq!(tokens[0].lexeme, "\"a\nb\"");
    assert_eq!(tokens[0].line, 2);
    assert_eq!(tokens[1].line, 2);
}

#[test]
fn keywords_carry_their_literals() {
    let (tokens, _) = scan("true false nil and");

    assert_eq!(tokens[0].literal, Some(Literal::Bool(true)));
    assert_eq!(tokens[1].literal, Some(Literal::Bool(false)));
    assert_eq!(tokens[2].literal, Some(Literal::Nil));
    assert_eq!(tokens[3].literal, None);
}

#[test]
fn identifiers_may_contain_digits_and_keywords() {
    let (tokens, errors) = scan("classy var1 _x");
    let types: Vec<TokenType> = tokens.iter().map(|token| token.token_type).collect();

    assert_eq!(errors.len(), 0);
    assert_eq!(
        types,
        vec![
            TokenType::Identifier,
            TokenType::Identifier,
            TokenType::Identifier,
            TokenType::Eof
        ]
    );
}

#[test]
fn left_paren() {
    assert_eq!(first_token_type("("), TokenType::LeftParen);
}

#[test]
fn right_paren() {
    assert_eq!(first_token_type(")"), TokenType::RightParen);
}

#[test]
fn left_brace() {
    assert_eq!(first_token_type("{"), TokenType::LeftBrace);
}

#[test]
fn right_brace() {
    assert_eq!(first_token_type("}"), TokenType::RightBrace);
}

#[test]
fn comma() {
    assert_eq!(first_token_type(","), TokenType::Comma);
}

#[test]
fn dot() {
    assert_eq!(first_token_type("."), TokenType::Dot);
}

#[test]
fn minus() {
    assert_eq!(first_token_type("-"), TokenType::Minus);
}

#[test]
fn plus() {
    assert_eq!(first_token_type("+"), TokenType::Plus);
}

#[test]
fn semicolon() {
    assert_eq!(first_token_type(";"), TokenType::Semicolon);
}

#[test]
fn star() {
    assert_eq!(first_token_type("*"), TokenType::Star);
}

#[test]
fn bang() {
    assert_eq!(first_token_type("!"), TokenType::Bang);
}

#[test]
fn bang_equal() {
    assert_eq!(first_token_type("!="), TokenType::BangEqual);
}

#[test]
fn equal() {
    assert_eq!(first_token_type("="), TokenType::Equal);
}

#[test]
fn equal_equal() {
    assert_eq!(first_token_type("=="), TokenType::EqualEqual);
}

#[test]
fn less() {
    assert_eq!(first_token_type("<"), TokenType::Less);
}

#[test]
fn less_equal() {
    assert_eq!(first_token_type("<="), TokenType::LessEqual);
}

#[test]
fn greater() {
    assert_eq!(first_token_type(">"), TokenType::Greater);
}

#[test]
fn greater_equal() {
    assert_eq!(first_token_type(">="), TokenType::GreaterEqual);
}

#[test]
fn slash() {
    assert_eq!(first_token_type("/"), TokenType::Slash);
}

#[test]
fn and() {
    assert_eq!(first_token_type("and"), TokenType::And);
}

#[test]
fn class() {
    assert_eq!(first_token_type("class"), TokenType::Class);
}

#[test]
fn else_token() {
    assert_eq!(first_token_type("else"), TokenType::Else);
}

#[test]
fn false_token() {
    assert_eq!(first_token_type("false"), TokenType::False);
}

#[test]
fn for_token() {
    assert_eq!(first_token_type("for"), TokenType::For);
}

#[test]
fn fun() {
    assert_eq!(first_token_type("fun"), TokenType::Fun);
}

#[test]
fn if_token() {
    assert_eq!(first_token_type("if"), TokenType::If);
}

#[test]
fn nil() {
    assert_eq!(first_token_type("nil"), TokenType::Nil);
}

#[test]
fn or() {
    assert_eq!(first_token_type("or"), TokenType::Or);
}

#[test]
fn print() {
    assert_eq!(first_token_type("print"), TokenType::Print);
}

#[test]
fn return_token() {
    assert_eq!(first_token_type("return"), TokenType::Return);
}

#[test]
fn super_token() {
    assert_eq!(first_token_type("super"), TokenType::Super);
}

#[test]
fn this() {
    assert_eq!(first_token_type("this"), TokenType::This);
}

#[test]
fn true_token() {
    assert_eq!(first_token_type("true"), TokenType::True);
}

#[test]
fn var() {
    assert_eq!(first_token_type("var"), TokenType::Var);
}

#[test]
fn while_token() {
    assert_eq!(first_token_type("while"), TokenType::While);
}

#[test]
fn identifiers_continue_with_any_letter_or_digit() {
    let (tokens, errors) = scan("caf\u{e9}1 \u{e9}t\u{e9}");

    assert_eq!(tokens[0].token_type, TokenType::Identifier);
    assert_eq!(tokens[0].lexeme, "caf\u{e9}1");
    assert_eq!(errors.len(), 1);
    assert_eq!(errors[0].to_string(), "[line 1] ScannerError: Invalid character: \u{e9}");
    assert_eq!(tokens[1].lexeme, "t\u{e9}");
    assert_eq!(tokens.len(), 3);
}

#[test]
fn a_comment_ends_with_its_line() {
    let (tokens, errors) = scan("1 // one \"unclosed\n2 / 3");
    let types: Vec<TokenType> = tokens.iter().map(|token| token.token_type).collect();

    assert_eq!(errors.len(), 0);
    assert_eq!(
        types,
        vec![
            TokenType::Number,
            TokenType::Number,
            TokenType::Slash,
            TokenType::Number,
            TokenType::Eof
        ]
    );
    assert_eq!(tokens[1].line, 2);
}
