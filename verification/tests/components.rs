use lox_compiler::environment::EnvironmentList;
use lox_compiler::environment_value::EnvironmentValue;
use lox_compiler::parse;
use lox_compiler::parse_token;
use lox_compiler::interpreter::Interpreter;
use lox_compiler::parser::Parser;
use lox_compiler::scanner::Scanner;
use lox_compiler::scope_analyst::ScopeAnalyst;
use lox_compiler::statement::Program;
use lox_compiler::tokens::{
    decimal_string, init_tokens, init_tokens_localized, Error, Token, TokensType,
};

#[test]
fn decimal_rendering() {
    assert_eq!(decimal_string(0), "0".to_string());
    assert_eq!(decimal_string(7), "7".to_string());
    assert_eq!(decimal_string(10), "10".to_string());
    assert_eq!(decimal_string(1234567890), "1234567890".to_string());
    assert_eq!(decimal_string(u64::MAX), "18446744073709551615".to_string());
}

#[test]
fn error_format_layout() {
    let e = Error {
        line: 3,
        column: 7,
        message: "Oops".to_string(),
    };
    assert_eq!(e.format(), "Oops in line 3 column 7".to_string());
}

#[test]
fn keyword_table_contents() {
    let table = init_tokens();
    assert_eq!(table.len(), 16);
    assert_eq!(table[0].0, "and".to_string());
    assert!(matches!(table[0].1, TokensType::And));
    assert_eq!(table[15].0, "while".to_string());
    assert!(matches!(table[15].1, TokensType::While));
}

#[test]
fn token_stream_shape() {
    let tokens = parse_token(&"var x = 1;".to_string());
    let kinds: Vec<TokensType> = tokens.iter().map(|t: &Token| t.token_type).collect();
    assert_eq!(
        kinds,
        vec![
            TokensType::Var,
            TokensType::Identifier,
            TokensType::Equal,
            TokensType::Number,
            TokensType::Semicolon,
            TokensType::Eof,
        ]
    );
    assert_eq!(tokens[1].lexeme, "x".to_string());
    assert_eq!(tokens[1].line, 1);
    assert_eq!(tokens[1].column, 5);
}

#[test]
fn number_token_carries_bits() {
    let tokens = parse_token(&"1.5".to_string());
    match &tokens[0].literal {
        Some(lox_compiler::tokens::ValueType::Number(bits)) => {
            assert_eq!(*bits, 1.5f64.to_bits());
        }
        other => panic!("expected a number literal, got {:?}", other.is_some()),
    }
}

#[test]
fn comments_and_whitespace_are_skipped() {
    let tokens = parse_token(&"// a comment\n  1".to_string());
    assert!(matches!(tokens[0].token_type, TokensType::Number));
    assert_eq!(tokens[0].line, 2);
}

#[test]
fn parse_accepts_a_program() {
    let program = parse(&"fun f(a) { return a; } print f(1);".to_string()).unwrap();
    assert_eq!(program.functions.len(), 1);
    assert_eq!(program.statements.len(), 2);
}

#[test]
fn parse_rejects_a_broken_program() {
    let errors = match parse(&"var = 3;".to_string()) {
        Err(e) => e,
        Ok(_) => panic!("expected a parse error"),
    };
    assert!(!errors.is_empty());
}

#[test]
fn invalid_assignment_target_is_a_parse_error() {
    let errors = match parse(&"1 = 2;".to_string()) {
        Err(e) => e,
        Ok(_) => panic!("expected a parse error"),
    };
    assert_eq!(errors[0].message, "Invalid assignment target".to_string());
}

fn num(x: f64) -> EnvironmentValue {
    EnvironmentValue::Number(x.to_bits())
}

fn as_num(v: EnvironmentValue) -> f64 {
    match v {
        EnvironmentValue::Number(b) => f64::from_bits(b),
        _ => panic!("not a number"),
    }
}

#[test]
fn value_arithmetic_matches_ieee() {
    let r = EnvironmentValue::add(&num(2.0), &num(3.0)).unwrap();
    assert_eq!(as_num(r), 5.0);
    let r = EnvironmentValue::sub(&num(1.0), &num(0.75)).unwrap();
    assert_eq!(as_num(r), 0.25);
    let r = EnvironmentValue::mul(&num(1.5), &num(2.0)).unwrap();
    assert_eq!(as_num(r), 3.0);
    let r = EnvironmentValue::div(&num(1.0), &num(8.0)).unwrap();
    assert_eq!(as_num(r), 0.125);
    let r = EnvironmentValue::neg(&num(2.5)).unwrap();
    assert_eq!(as_num(r), -2.5);
    // rounding agrees with the hardware result even when inexact
    let r = EnvironmentValue::add(&num(0.1), &num(0.2)).unwrap();
    assert_eq!(as_num(r), 0.1 + 0.2);
}

#[test]
fn value_comparisons_match_ieee() {
    let t = |r: Result<EnvironmentValue, ()>| match r.unwrap() {
        EnvironmentValue::Bool(b) => b,
        _ => panic!("not a bool"),
    };
    assert!(t(EnvironmentValue::lt(&num(1.0), &num(2.0))));
    assert!(!t(EnvironmentValue::gt(&num(1.0), &num(2.0))));
    assert!(t(EnvironmentValue::le(&num(2.0), &num(2.0))));
    assert!(t(EnvironmentValue::ge(&num(2.0), &num(2.0))));
    assert!(t(EnvironmentValue::eq(&num(0.0), &num(-0.0))));
    let nan = f64::NAN;
    assert!(!t(EnvironmentValue::eq(&num(nan), &num(nan))));
}

#[test]
fn value_add_rejects_mixed_operands() {
    let r = EnvironmentValue::add(&num(1.0), &EnvironmentValue::String("x".to_string()));
    assert!(r.is_err());
}

#[test]
fn truthiness_of_values() {
    assert!(!num(0.0).is_truthy());
    assert!(num(0.5).is_truthy());
    assert!(!EnvironmentValue::String(String::new()).is_truthy());
    assert!(EnvironmentValue::String("x".to_string()).is_truthy());
    assert!(!EnvironmentValue::Nil.is_truthy());
    assert!(!EnvironmentValue::Bool(false).is_truthy());
    assert!(EnvironmentValue::Bool(true).is_truthy());
}

#[test]
fn printable_forms() {
    assert_eq!(num(7.0).as_print().unwrap(), "7".to_string());
    assert_eq!(num(0.5).as_print().unwrap(), "0.5".to_string());
    assert_eq!(
        EnvironmentValue::Bool(true).as_print().unwrap(),
        "true".to_string()
    );
    assert_eq!(EnvironmentValue::Nil.as_print().unwrap(), "Nil".to_string());
    assert!(EnvironmentValue::LoxClass(0).as_print().is_err());
}

fn tok(name: &str) -> Token {
    Token {
        token_type: TokensType::Identifier,
        lexeme: name.to_string(),
        line: 1,
        column: 1,
        literal: None,
    }
}

#[test]
fn environment_define_get_and_distance() {
    let mut envs = EnvironmentList::new();
    envs.define("a".to_string(), num(1.0));
    // a frame whose parent is the global frame
    envs.next(None);
    envs.define("b".to_string(), num(2.0));

    // depth 0 finds the inner binding, depth 1 the global one
    let b = envs.get_by_distance(&tok("b"), 0).unwrap();
    assert_eq!(as_num(b), 2.0);
    let a = envs.get_by_distance(&tok("a"), 1).unwrap();
    assert_eq!(as_num(a), 1.0);
    assert!(envs.get_by_distance(&tok("a"), 0).is_err());

    // shadowing: the newest binding wins
    envs.define("b".to_string(), num(9.0));
    let b = envs.get_by_distance(&tok("b"), 0).unwrap();
    assert_eq!(as_num(b), 9.0);

    // chain assignment reaches the global frame
    envs.assign(&tok("a"), num(5.0)).unwrap();
    let a = envs.global_get(&tok("a")).unwrap();
    assert_eq!(as_num(a), 5.0);
    assert!(envs.assign(&tok("zz"), num(0.0)).is_err());

    envs.back();
    let a = envs.get_by_distance(&tok("a"), 0).unwrap();
    assert_eq!(as_num(a), 5.0);
}

#[test]
fn localized_keywords_drive_the_scanner() {
    let source = "声明 甲 = 2;\n打印 甲 + 3;".to_string();
    let mut s = Scanner::new_with_keywords(&source, init_tokens_localized());
    s.scan();
    assert!(s.errors.is_empty());
    assert!(matches!(s.tokens[0].token_type, TokensType::Var));

    let lines = lox_compiler::interpret_with_keywords(&source, init_tokens_localized());
    assert_eq!(lines, vec!["5".to_string()]);
}

#[test]
fn step_budget_stops_a_diverging_program() {
    let program = parse(&"while (1) { }".to_string()).unwrap();
    let mut analyst = ScopeAnalyst::new(program.id_count);
    analyst.analysis(&program);
    assert!(analyst.errors.is_empty());

    let mut inter = Interpreter::new(analyst.scope_record, 100);
    let err = match inter.interpret(&program) {
        Err(e) => e,
        Ok(_) => panic!("expected the budget to run out"),
    };
    assert_eq!(err.message, "Execution budget exhausted".to_string());
}
