use malrs::atoms::Atoms;
use malrs::printer::pr_str;
use malrs::reader::{read_str, tokenize};
use malrs::types::{MalError, MalToken, MalTokenType, MalValue, MalValueType};

fn token(token_type: MalTokenType) -> MalToken {
    MalToken::new(token_type)
}

fn show(text: &str) -> String {
    pr_str(&read_str(text).unwrap(), true, &Atoms::new())
}

fn tokenizer_error(message: &str) -> MalError {
    MalError::Tokenizer(message.to_string())
}

fn parser_error(message: &str) -> MalError {
    MalError::Parser(message.to_string())
}

#[test]
fn tokens_of_brackets_and_prefixes() {
    assert_eq!(
        tokenize("( ) [ ] { } ' ` ~ ~@ @"),
        Ok(vec![
            token(MalTokenType::LParen),
            token(MalTokenType::RParen),
            token(MalTokenType::LBracket),
            token(MalTokenType::RBracket),
            token(MalTokenType::LCurly),
            token(MalTokenType::RCurly),
            token(MalTokenType::SingleQuote),
            token(MalTokenType::BackTick),
            token(MalTokenType::Tilde),
            token(MalTokenType::TildeAtSign),
            token(MalTokenType::AtSign),
        ])
    );
    assert_eq!(
        tokenize("~@~~@"),
        Ok(vec![
            token(MalTokenType::TildeAtSign),
            token(MalTokenType::Tilde),
            token(MalTokenType::TildeAtSign),
        ])
    );
}

#[test]
fn tokens_of_names_and_literals() {
    assert_eq!(
        tokenize("nil true false abc :kw 12 -3.5 \"s\" nil? - +x"),
        Ok(vec![
            token(MalTokenType::Nil),
            token(MalTokenType::True),
            token(MalTokenType::False),
            token(MalTokenType::Symbol("abc".to_string())),
            token(MalTokenType::Keyword("kw".to_string())),
            token(MalTokenType::Number(12f64.to_bits())),
            token(MalTokenType::Number((-3.5f64).to_bits())),
            token(MalTokenType::Str("s".to_string())),
            token(MalTokenType::Symbol("nil?".to_string())),
            token(MalTokenType::Symbol("-".to_string())),
            token(MalTokenType::Symbol("+x".to_string())),
        ])
    );
    assert_eq!(
        tokenize("(a(b)c)"),
        Ok(vec![
            token(MalTokenType::LParen),
            token(MalTokenType::Symbol("a".to_string())),
            token(MalTokenType::LParen),
            token(MalTokenType::Symbol("b".to_string())),
            token(MalTokenType::RParen),
            token(MalTokenType::Symbol("c".to_string())),
            token(MalTokenType::RParen),
        ])
    );
    assert_eq!(tokenize(":"), Ok(vec![token(MalTokenType::Keyword(String::new()))]));
    assert_eq!(tokenize("a~b@c"), Ok(vec![token(MalTokenType::Symbol("a~b@c".to_string()))]));
}

#[test]
fn blanks_commas_and_comments_separate_tokens() {
    assert_eq!(tokenize(""), Ok(vec![]));
    assert_eq!(tokenize(" \t\r\n,,, "), Ok(vec![]));
    assert_eq!(tokenize("; only a comment"), Ok(vec![]));
    assert_eq!(
        tokenize("1,2 ; two numbers\n3;x\n"),
        Ok(vec![
            token(MalTokenType::Number(1f64.to_bits())),
            token(MalTokenType::Number(2f64.to_bits())),
            token(MalTokenType::Number(3f64.to_bits())),
        ])
    );
    assert_eq!(
        tokenize("\"a;b\" ;c"),
        Ok(vec![token(MalTokenType::Str("a;b".to_string()))])
    );
}

#[test]
fn strings_are_unescaped() {
    assert_eq!(tokenize("\"\""), Ok(vec![token(MalTokenType::Str(String::new()))]));
    assert_eq!(
        tokenize("\"a\\\"b\\\\c\\nd\\te\""),
        Ok(vec![token(MalTokenType::Str("a\"b\\c\ndte".to_string()))])
    );
    assert_eq!(
        tokenize("\"(not a list)\""),
        Ok(vec![token(MalTokenType::Str("(not a list)".to_string()))])
    );
    assert_eq!(tokenize("\"abc"), Err(tokenizer_error("Unterminated string")));
    assert_eq!(tokenize("\""), Err(tokenizer_error("Unterminated string")));
    assert_eq!(tokenize("\"abc\\"), Err(tokenizer_error("Unterminated string")));
    assert_eq!(tokenize("\"abc\\\""), Err(tokenizer_error("Unterminated string")));
}

#[test]
fn what_starts_like_a_number_must_be_one() {
    assert_eq!(tokenize("12abc"), Err(tokenizer_error("Invalid number")));
    assert_eq!(tokenize("1.2.3"), Err(tokenizer_error("Invalid number")));
    assert_eq!(tokenize("-1x"), Err(tokenizer_error("Invalid number")));
    assert_eq!(tokenize("(+ 1 2e)"), Err(tokenizer_error("Invalid number")));
    assert_eq!(tokenize("1e5"), Ok(vec![token(MalTokenType::Number(1e5f64.to_bits()))]));
    assert_eq!(tokenize("+7"), Ok(vec![token(MalTokenType::Number(7f64.to_bits()))]));
    assert_eq!(tokenize("-a"), Ok(vec![token(MalTokenType::Symbol("-a".to_string()))]));
    assert_eq!(tokenize(".5"), Ok(vec![token(MalTokenType::Symbol(".5".to_string()))]));
}

#[test]
fn empty_text_is_an_empty_program() {
    assert_eq!(read_str(""), Err(MalError::EmptyProgram));
    assert_eq!(read_str("   \n\t "), Err(MalError::EmptyProgram));
    assert_eq!(read_str(",,,"), Err(MalError::EmptyProgram));
    assert_eq!(read_str("; nothing here\n ; nor here"), Err(MalError::EmptyProgram));
}

#[test]
fn forms_are_read() {
    assert_eq!(read_str("7"), Ok(MalValue::new_number(7f64.to_bits())));
    assert_eq!(read_str("abc"), Ok(MalValue::new(MalValueType::Symbol("abc".to_string()))));
    assert_eq!(read_str(":abc"), Ok(MalValue::new(MalValueType::Keyword("abc".to_string()))));
    assert_eq!(read_str("\"abc\""), Ok(MalValue::new_str("abc".to_string())));
    assert_eq!(read_str("nil"), Ok(MalValue::nil()));
    assert_eq!(read_str("true"), Ok(MalValue::new_boolean(true)));
    assert_eq!(read_str("false"), Ok(MalValue::new_boolean(false)));
    assert_eq!(
        read_str("(1 [2] {})"),
        Ok(MalValue::new_list(vec![
            MalValue::new_number(1f64.to_bits()),
            MalValue::new_vector(vec![MalValue::new_number(2f64.to_bits())]),
            MalValue::new_map(malrs::types::MalMap { entries: Vec::new() }),
        ]))
    );
    assert!(read_str("(1 2)").unwrap().is_list());
    assert!(!read_str("[1 2]").unwrap().is_list());
    assert_eq!(show("( 1 ,2   (3) )"), "(1 2 (3))");
    assert_eq!(show("{\"a\" 1, :b [2 3]}"), "{\"a\" 1 :b [2 3]}");
    assert_eq!(show("{:a 1 :a 2}"), "{:a 2}");
    assert_eq!(show("1 2 3"), "1");
    assert_eq!(show("(a) )"), "(a)");
}

#[test]
fn prefixes_are_read_as_lists() {
    assert_eq!(show("'a"), "(quote a)");
    assert_eq!(show("`(a b)"), "(quasiquote (a b))");
    assert_eq!(show("~a"), "(unquote a)");
    assert_eq!(show("~@(a)"), "(splice-unquote (a))");
    assert_eq!(show("@a"), "(deref a)");
    assert_eq!(show("''a"), "(quote (quote a))");
    assert_eq!(show("('a `b)"), "((quote a) (quasiquote b))");
}

#[test]
fn malformed_forms_are_parser_errors() {
    assert_eq!(read_str("("), Err(parser_error("Unexpected end of input")));
    assert_eq!(read_str("(1 2"), Err(parser_error("Unexpected end of input")));
    assert_eq!(read_str("[1 (2 3)"), Err(parser_error("Unexpected end of input")));
    assert_eq!(read_str("{:a"), Err(parser_error("Unexpected end of input")));
    assert_eq!(read_str("'"), Err(parser_error("Unexpected end of input")));
    assert_eq!(read_str("(~@"), Err(parser_error("Unexpected end of input")));
    assert_eq!(read_str(")"), Err(parser_error("Unexpected closing bracket")));
    assert_eq!(read_str("]"), Err(parser_error("Unexpected closing bracket")));
    assert_eq!(read_str("}"), Err(parser_error("Unexpected closing bracket")));
    assert_eq!(read_str("(1 ]"), Err(parser_error("Unexpected closing bracket")));
    assert_eq!(read_str("[1 )"), Err(parser_error("Unexpected closing bracket")));
    assert_eq!(
        read_str("{:a}"),
        Err(parser_error("hash map must have an even number of arguments"))
    );
    assert_eq!(
        read_str("{1 2}"),
        Err(parser_error("hash map keys must be strings or keywords"))
    );
    assert_eq!(
        read_str("{(a) 2}"),
        Err(parser_error("hash map keys must be strings or keywords"))
    );
}

#[test]
fn deeply_nested_forms_are_read() {
    let depth = 500;
    let text = format!("{}{}", "(".repeat(depth), ")".repeat(depth));
    assert_eq!(show(&text), text);
    let text = format!("{}1{}", "[".repeat(depth), "]".repeat(depth));
    assert_eq!(show(&text), text);
}
