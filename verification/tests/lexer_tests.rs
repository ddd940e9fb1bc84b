use skribi::lexer::{tokenize, word_to_token};
use skribi::skr_errors::CustomError;
use skribi::tokens::{ModifierKeyword, SpaceTypes, Token};

fn token_list(source: &str) -> Vec<Token> {
    tokenize(String::from(source))
        .unwrap()
        .into_iter()
        .map(|tc| tc.token)
        .collect()
}

#[test]
fn test_tokenize_string_with_newline_escape() {
    // `"a\nb"` is one String token containing a literal newline
    let tokens = token_list("\"a\\nb\"");
    assert_eq!(vec![Token::String(String::from("a\nb"))], tokens);
}

#[test]
fn test_tokenize_string_other_escapes() {
    let tokens = token_list("\"t\\tr\\rn\\0q\\\"z\\xw\"");
    assert_eq!(
        vec![Token::String(String::from("t\tr\rn\0q\"z\u{78}w"))],
        tokens
    );
}

#[test]
fn test_tokenize_second_dot_is_invalid_float() {
    let res = tokenize(String::from("1.2.3"));
    assert_eq!(
        Err(CustomError::InvalidFloat(
            String::from("A float can have only one . !"),
            1
        )),
        res
    );
}

#[test]
fn test_tokenize_unterminated_string() {
    let res = tokenize(String::from("\"abc"));
    assert_eq!(
        Err(CustomError::InvalidString(
            String::from("String not closed"),
            1
        )),
        res
    );
}

#[test]
fn test_tokenize_unterminated_string_cites_start_line() {
    // the string starts on line 2
    let res = tokenize(String::from("\n\"abc"));
    assert_eq!(
        Err(CustomError::InvalidString(
            String::from("String not closed"),
            2
        )),
        res
    );
}

#[test]
fn test_tokenize_numbers() {
    let tokens = token_list("12 3.5");
    assert_eq!(
        vec![
            Token::Int(String::from("12")),
            Token::Float(String::from("3.5")),
        ],
        tokens
    );
}

#[test]
fn test_tokenize_keywords() {
    let tokens = token_list("fu ju pu ij sula skr_app io no ums kat ei biuli kodi spoki other");
    assert_eq!(
        vec![
            Token::KeywordModifier(ModifierKeyword::Global),
            Token::KeywordModifier(ModifierKeyword::Constant),
            Token::KeywordModifier(ModifierKeyword::Private),
            Token::KeywordIf,
            Token::KeywordElse,
            Token::NatCall,
            Token::Bool(true),
            Token::Bool(false),
            Token::KeywordFunction,
            Token::KeywordClass,
            Token::KeywordReturn,
            Token::KeywordBubbleScope,
            Token::KeywordSimpleScope,
            Token::KeywordUnusedScope,
            Token::Identifier(String::from("other")),
        ],
        tokens
    );
}

#[test]
fn test_tokenize_operators_and_punctuation() {
    let tokens = token_list("+-*:(){}");
    assert_eq!(
        vec![
            Token::Add,
            Token::Sub,
            Token::Mul,
            Token::Inside,
            Token::LeftParenthesis,
            Token::RightParenthesis,
            Token::LeftBrace,
            Token::RightBrace,
        ],
        tokens
    );
}

#[test]
fn test_tokenize_comment_and_divide() {
    // `//` discards up to the newline and leaves a newline marker; a lone
    // `/` is the divide operator
    let tokens = token_list("8/2//rest\nx");
    assert_eq!(
        vec![
            Token::Int(String::from("8")),
            Token::Div,
            Token::Int(String::from("2")),
            Token::Space(SpaceTypes::NewLine),
            Token::Identifier(String::from("x")),
        ],
        tokens
    );
}

#[test]
fn test_tokenize_divide_at_end() {
    let tokens = token_list("4/");
    assert_eq!(vec![Token::Int(String::from("4")), Token::Div], tokens);
}

#[test]
fn test_tokenize_invalid_character_is_deferred() {
    // an unrecognized character is not a hard failure
    let tokens = token_list("a@b");
    assert_eq!(
        vec![
            Token::Identifier(String::from("a")),
            Token::Invalid(String::from("@")),
            Token::Identifier(String::from("b")),
        ],
        tokens
    );
}

#[test]
fn test_tokenize_lines_and_spaces() {
    let res = tokenize(String::from("a\nb c")).unwrap();
    let lines: Vec<usize> = res.iter().map(|tc| tc.line).collect();
    let tokens: Vec<&Token> = res.iter().map(|tc| &tc.token).collect();
    assert_eq!(
        vec![
            &Token::Identifier(String::from("a")),
            &Token::Space(SpaceTypes::NewLine),
            &Token::Identifier(String::from("b")),
            &Token::Identifier(String::from("c")),
        ],
        tokens
    );
    // the newline marker already carries the incremented line
    assert_eq!(vec![1, 2, 2, 2], lines);
}

#[test]
fn test_word_to_token_table() {
    assert_eq!(
        Token::KeywordModifier(ModifierKeyword::Global),
        word_to_token(String::from("fu"))
    );
    assert_eq!(
        Token::Identifier(String::from("fufu")),
        word_to_token(String::from("fufu"))
    );
}

#[test]
fn test_tokenize_empty_source() {
    assert_eq!(0, tokenize(String::new()).unwrap().len());
}
