use rust_monkey::ast::statement::Statement;
use rust_monkey::ast::{Node, NodeInterface, Program};
use rust_monkey::lexer::Lexer;
use rust_monkey::parser::helper::{parse_decimal, Precedence};
use rust_monkey::parser::Parser;
use rust_monkey::token::{is_keyword, lookup_keyword, Token, TokenType};

fn parse(input: &str) -> (Program, Vec<String>) {
    let mut p = Parser::new(Box::new(Lexer::new(input.to_string())));
    let program = p.parse_program();
    let errors = p.errors();
    (program, errors)
}

fn lex_all(input: &str) -> Vec<Result<Token, String>> {
    let mut l = Lexer::new(input.to_string());
    let mut out = Vec::new();
    loop {
        let t = l.next_token();
        let done = matches!(&t, Ok(tok) if tok.token_type == TokenType::EOF);
        out.push(t);
        if done {
            return out;
        }
    }
}

#[test]
fn each_symbol_alone_is_one_token() {
    let cases = [
        ('=', TokenType::Assign),
        ('+', TokenType::Plus),
        ('(', TokenType::LParen),
        (')', TokenType::RParen),
        (',', TokenType::Comma),
        (';', TokenType::Semicolon),
        ('{', TokenType::LBrace),
        ('}', TokenType::RBrace),
        ('-', TokenType::Minus),
        ('!', TokenType::Bang),
        ('*', TokenType::Asterisk),
        ('/', TokenType::Slash),
        ('<', TokenType::Lt),
        ('>', TokenType::Gt),
    ];
    for (c, kind) in cases.iter() {
        let mut l = Lexer::new(c.to_string());
        let tok = l.next_token().unwrap();
        assert_eq!(tok.token_type, *kind);
        assert_eq!(tok.literal, c.to_string());
        let end = l.next_token().unwrap();
        assert_eq!(end.token_type, TokenType::EOF);
    }
}

#[test]
fn two_character_operators_are_one_token() {
    let toks = lex_all("==");
    assert_eq!(toks.len(), 2);
    let eq = toks[0].as_ref().unwrap();
    assert_eq!(eq.token_type, TokenType::Eq);
    assert_eq!(eq.literal, "==");

    let toks = lex_all("a!=b");
    let kinds: Vec<TokenType> = toks.iter().map(|t| t.as_ref().unwrap().token_type).collect();
    assert_eq!(kinds, vec![TokenType::Ident, TokenType::NotEq, TokenType::Ident, TokenType::EOF]);
    assert_eq!(toks[1].as_ref().unwrap().literal, "!=");

    let toks = lex_all("= =");
    let kinds: Vec<TokenType> = toks.iter().map(|t| t.as_ref().unwrap().token_type).collect();
    assert_eq!(kinds, vec![TokenType::Assign, TokenType::Assign, TokenType::EOF]);
}

#[test]
fn keywords_and_identifiers() {
    let keywords = [
        ("fn", TokenType::Function),
        ("let", TokenType::Let),
        ("true", TokenType::True),
        ("false", TokenType::False),
        ("if", TokenType::If),
        ("else", TokenType::Else),
        ("return", TokenType::Return),
    ];
    for (word, kind) in keywords.iter() {
        let mut l = Lexer::new(word.to_string());
        let tok = l.next_token().unwrap();
        assert_eq!(tok.token_type, *kind);
        assert_eq!(tok.to_string(), word.to_string());
        let chars: Vec<char> = word.chars().collect();
        assert!(is_keyword(&chars));
        assert_eq!(lookup_keyword(&chars), Ok(*kind));
    }
    for word in ["fnx", "lets", "foo_bar", "Return", "_x"].iter() {
        let mut l = Lexer::new(word.to_string());
        let tok = l.next_token().unwrap();
        assert_eq!(tok.token_type, TokenType::Ident);
        assert_eq!(tok.literal, word.to_string());
        let chars: Vec<char> = word.chars().collect();
        assert!(!is_keyword(&chars));
        assert!(lookup_keyword(&chars).is_err());
    }
}

#[test]
fn letters_and_digits_split_into_tokens() {
    let toks = lex_all("x1 23abc");
    let got: Vec<(TokenType, String)> = toks
        .iter()
        .map(|t| {
            let t = t.as_ref().unwrap();
            (t.token_type, t.literal.clone())
        })
        .collect();
    assert_eq!(
        got,
        vec![
            (TokenType::Ident, "x".to_string()),
            (TokenType::Int, "1".to_string()),
            (TokenType::Int, "23".to_string()),
            (TokenType::Ident, "abc".to_string()),
            (TokenType::EOF, "".to_string()),
        ]
    );
}

#[test]
fn end_of_input_repeats() {
    let mut l = Lexer::new(String::new());
    for _ in 0..3 {
        let tok = l.next_token().unwrap();
        assert_eq!(tok.token_type, TokenType::EOF);
        assert_eq!(tok.to_string(), "^D");
    }
    let mut l = Lexer::new(" x \n\t".to_string());
    assert_eq!(l.next_token().unwrap().token_type, TokenType::Ident);
    for _ in 0..3 {
        assert_eq!(l.next_token().unwrap().token_type, TokenType::EOF);
    }
}

#[test]
fn illegal_character_is_reported_by_the_lexer() {
    let mut l = Lexer::new("@x".to_string());
    assert_eq!(l.next_token().unwrap_err(), "illegal character: @");
    let tok = l.next_token().unwrap();
    assert_eq!(tok.token_type, TokenType::Ident);
    assert_eq!(tok.literal, "x");
    let mut l = Lexer::new("é".to_string());
    assert_eq!(l.next_token().unwrap_err(), "illegal character: é");
    let mut l = Lexer::new("@".to_string());
    let tok = l.read_token();
    assert_eq!(tok.token_type, TokenType::Illegal);
    assert_eq!(tok.literal, "@");
}

#[test]
fn illegal_character_is_recorded_by_the_parser() {
    let (program, errors) = parse("let x = @;");
    assert_eq!(program.statements.len(), 0);
    assert_eq!(
        errors,
        vec![
            "illegal character: @".to_string(),
            "no parse function for token @".to_string(),
            "no parse function for token ;".to_string(),
        ]
    );
    let (_, errors) = parse("a + b @");
    assert_eq!(errors[0], "illegal character: @");
}

#[test]
fn one_let_statement() {
    let (program, errors) = parse("let x = 5;");
    assert!(errors.is_empty());
    assert_eq!(program.statements.len(), 1);
    let stmt = program.statements[0].let_statement().unwrap();
    assert_eq!(stmt.name.value, "x");
    assert_eq!(stmt.value.integer_literal().unwrap().value, 5);
    assert_eq!(program.to_string(), "let x = 5;");
    assert_eq!(program.token_literal(), "let");
}

#[test]
fn two_return_statements() {
    let (program, errors) = parse("return 5; return 10;");
    assert!(errors.is_empty());
    assert_eq!(program.statements.len(), 2);
    let values: Vec<i64> = program
        .statements
        .iter()
        .map(|s| {
            let r = s.return_statement().unwrap();
            r.return_value.as_ref().unwrap().integer_literal().unwrap().value
        })
        .collect();
    assert_eq!(values, vec![5, 10]);
    assert_eq!(program.to_string(), "return 5;return 10;");
}

#[test]
fn bare_return() {
    let (program, errors) = parse("return;");
    assert!(errors.is_empty());
    let r = program.statements[0].return_statement().unwrap();
    assert!(r.return_value.is_none());
    assert_eq!(program.to_string(), "return ;");
}

#[test]
fn if_with_and_without_else() {
    let (program, errors) = parse("if (x < y) { x }");
    assert!(errors.is_empty());
    let stmt = program.statements[0].expression_statement().unwrap();
    let if_exp = stmt.expression.if_expression().unwrap();
    assert!(if_exp.alternative.is_none());
    assert_eq!(if_exp.consequence.statements.len(), 1);
    assert_eq!(program.to_string(), "if(x < y) x");

    let (program, errors) = parse("if (x < y) { x } else { y }");
    assert!(errors.is_empty());
    let stmt = program.statements[0].expression_statement().unwrap();
    let if_exp = stmt.expression.if_expression().unwrap();
    assert_eq!(if_exp.alternative.as_ref().unwrap().statements.len(), 1);
    assert_eq!(program.to_string(), "if(x < y) xelse y");
}

#[test]
fn function_literal_without_semicolon() {
    let (program, errors) = parse("fn(x, y) { x + y }");
    assert!(errors.is_empty());
    let stmt = program.statements[0].expression_statement().unwrap();
    let f = stmt.expression.function_literal().unwrap();
    assert_eq!(f.parameters.len(), 2);
    assert_eq!(f.parameters[0].value, "x");
    assert_eq!(f.parameters[1].value, "y");
    assert_eq!(f.body.statements.len(), 1);
    assert_eq!(program.to_string(), "fn(x, y)(x + y)");

    let (program, errors) = parse("fn() {}");
    assert!(errors.is_empty());
    let stmt = program.statements[0].expression_statement().unwrap();
    let f = stmt.expression.function_literal().unwrap();
    assert_eq!(f.parameters.len(), 0);
    assert_eq!(f.body.statements.len(), 0);
}

#[test]
fn call_with_three_arguments() {
    let (program, errors) = parse("add(1, 2 * 3, 4 + 5)");
    assert!(errors.is_empty());
    let stmt = program.statements[0].expression_statement().unwrap();
    let call = stmt.expression.call_expression().unwrap();
    assert_eq!(call.function.identifier().unwrap().value, "add");
    assert_eq!(call.arguments.len(), 3);
    assert_eq!(program.to_string(), "add(1, (2 * 3), (4 + 5))");

    let (program, errors) = parse("f()");
    assert!(errors.is_empty());
    let stmt = program.statements[0].expression_statement().unwrap();
    assert_eq!(stmt.expression.call_expression().unwrap().arguments.len(), 0);
    assert_eq!(program.to_string(), "f()");
}

#[test]
fn precedence_examples_render() {
    let cases = [
        ("-a * b", "((-a) * b)"),
        ("a + b * c + d / e - f", "(((a + (b * c)) + (d / e)) - f)"),
        ("3 + 4; -5 * 5", "(3 + 4)((-5) * 5)"),
        ("a + add(b * c) + d", "((a + add((b * c))) + d)"),
    ];
    for (input, expected) in cases.iter() {
        let (program, errors) = parse(input);
        assert!(errors.is_empty());
        assert_eq!(program.to_string(), expected.to_string());
    }
}

#[test]
fn parsing_twice_gives_the_same_result() {
    let input = "let f = fn(a) { if (a > 1) { return a; } else { @ } }; f(2)";
    let (first, first_errors) = parse(input);
    let (second, second_errors) = parse(input);
    assert_eq!(first.to_string(), second.to_string());
    assert_eq!(format!("{:?}", first), format!("{:?}", second));
    assert_eq!(first_errors, second_errors);
    let first_tokens: Vec<String> = lex_all(input).iter().map(|t| format!("{:?}", t)).collect();
    let second_tokens: Vec<String> = lex_all(input).iter().map(|t| format!("{:?}", t)).collect();
    assert_eq!(first_tokens, second_tokens);
}

#[test]
fn expectation_mismatch_is_recorded() {
    let (program, errors) = parse("let x + 5;");
    assert_eq!(
        errors,
        vec![
            "expected next token to be = but got + instead".to_string(),
            "no parse function for token +".to_string(),
        ]
    );
    assert_eq!(program.to_string(), "5");

    let (_, errors) = parse("add(1, 2");
    assert_eq!(errors, vec!["expected next token to be ) but got ^D instead".to_string()]);

    let (_, errors) = parse("(1 + 2");
    assert_eq!(errors, vec!["expected next token to be ) but got ^D instead".to_string()]);

    let (_, errors) = parse("if x");
    assert_eq!(errors[0], "expected next token to be ( but got  instead");
}

#[test]
fn no_prefix_function_is_recorded() {
    let (program, errors) = parse(")");
    assert_eq!(program.statements.len(), 0);
    assert_eq!(errors, vec!["no parse function for token )".to_string()]);
}

#[test]
fn integer_literals_must_fit_in_64_bits() {
    let (program, errors) = parse("9223372036854775807");
    assert!(errors.is_empty());
    let stmt = program.statements[0].expression_statement().unwrap();
    assert_eq!(stmt.expression.integer_literal().unwrap().value, i64::MAX);

    let (program, errors) = parse("9223372036854775808");
    assert_eq!(program.statements.len(), 0);
    assert_eq!(
        errors,
        vec![
            "could not parse 9223372036854775808 as integer. Err: number too large to fit in target type"
                .to_string()
        ]
    );
}

#[test]
fn decimal_text() {
    assert_eq!(parse_decimal("0"), Ok(0));
    assert_eq!(parse_decimal("838383"), Ok(838383));
    assert_eq!(parse_decimal(""), Err("cannot parse integer from empty string".to_string()));
    assert_eq!(parse_decimal("12a"), Err("invalid digit found in string".to_string()));
    assert_eq!(
        parse_decimal("99999999999999999999"),
        Err("number too large to fit in target type".to_string())
    );
}

#[test]
fn empty_program() {
    let (program, errors) = parse("");
    assert!(program.statements.is_empty());
    assert!(errors.is_empty());
    assert_eq!(program.token_literal(), "");
    assert_eq!(program.to_string(), "");
}

#[test]
fn unclosed_block_ends_at_end_of_input() {
    let (program, errors) = parse("if (x) { y");
    assert!(errors.is_empty());
    let stmt = program.statements[0].expression_statement().unwrap();
    let if_exp = stmt.expression.if_expression().unwrap();
    assert_eq!(if_exp.consequence.statements.len(), 1);
}

#[test]
fn failed_statement_is_skipped() {
    let (program, errors) = parse("let = 1; let y = 2;");
    assert_eq!(
        errors,
        vec![
            "expected next token to be  but got = instead".to_string(),
            "no parse function for token =".to_string(),
        ]
    );
    let lets: Vec<&str> = program
        .statements
        .iter()
        .filter_map(|s| s.let_statement())
        .map(|l| l.name.value.as_str())
        .collect();
    assert_eq!(lets, vec!["y"]);
}

#[test]
fn nodes_and_literals() {
    let (mut program, _) = parse("!true; x;");
    let s = program.statements.remove(0);
    assert_eq!(s.token_literal(), "");
    let stmt = s.expression_statement().unwrap();
    assert_eq!(stmt.token_literal(), "!");
    let prefix = stmt.expression.prefix_expression().unwrap();
    assert_eq!(prefix.operator, "!");
    assert_eq!(prefix.token_literal(), "!");
    assert!(prefix.right.boolean_expression().unwrap().value);
    let node = Node::Statement(s);
    assert_eq!(node.to_string(), "(!true)");
    assert_eq!(node.token_literal(), "(!true)");
    assert!(matches!(node, Node::Statement(Statement::Expression(_))));
}

#[test]
fn precedence_table() {
    assert_eq!(Precedence::precedences(&TokenType::Eq), Precedence::Equals);
    assert_eq!(Precedence::precedences(&TokenType::Lt), Precedence::LessGreater);
    assert_eq!(Precedence::precedences(&TokenType::Minus), Precedence::Sum);
    assert_eq!(Precedence::precedences(&TokenType::Slash), Precedence::Product);
    assert_eq!(Precedence::precedences(&TokenType::LParen), Precedence::Call);
    assert_eq!(Precedence::precedences(&TokenType::Semicolon), Precedence::Lowest);
    assert_eq!(Precedence::Prefix.level_of(), 5);
}
