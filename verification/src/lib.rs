//! A tree-walking interpreter for Lox: lexer, recursive-descent parser,
//! a resolver that assigns each name use the lexical distance to its
//! defining scope, and an interpreter whose environments form an arena of
//! frames linked by parent indices, so that closures keep their defining
//! scope alive by remembering a frame index.
use vstd::prelude::*;

pub mod environment;
pub mod environment_value;
pub mod expression;
pub mod interpreter;
pub mod lox_class;
pub mod lox_function;
pub mod lox_instance;
pub mod numbers;
pub mod parser;
pub mod scanner;
pub mod scope_analyst;
pub mod statement;
pub mod tokens;

verus! {

use crate::environment_value::{spec_print_text, EnvironmentValue};
use crate::statement::{program_wf, Program};
use crate::tokens::{Error, Token, TokensType};

/// Scans `code` into its token stream; the stream is never empty and
/// always ends with an `Eof` token.
pub fn parse_token(code: &String) -> (r: Vec<Token>)
    ensures
        r@.len() > 0,
        r@.last().token_type == TokensType::Eof,
{
    let mut s = scanner::Scanner::new(code);
    s.scan();
    s.tokens
}

/// Scans and parses `code`. A well-formed program comes back exactly when
/// neither the scanner nor the parser reported an error; otherwise the
/// diagnostics come back.
pub fn parse(code: &String) -> (r: Result<Program, Vec<Error>>)
    ensures
        r matches Ok(p) ==> program_wf(p),
        r matches Err(errors) ==> errors@.len() > 0,
{
    let mut s = scanner::Scanner::new(code);
    s.scan();
    if s.errors.len() != 0 {
        return Err(s.errors);
    }
    let mut p = parser::Parser::new(s.tokens);
    p.parse();
    if p.errors.len() != 0 {
        return Err(p.errors);
    }
    Ok(Program { statements: p.statements, functions: p.functions, id_count: p.id_count })
}

/// Formats a batch of diagnostics, one line each.
fn format_errors(errors: &Vec<Error>) -> (r: Vec<String>)
    ensures
        r@.len() == errors@.len(),
{
    let n = errors.len();
    let mut lines: Vec<String> = Vec::new();
    let mut i: usize = 0;
    while i < n
        invariant
            i <= n,
            n == errors@.len(),
            lines@.len() == i,
        decreases n - i,
    {
        lines.push(errors[i].format());
        i = i + 1;
    }
    lines
}

/// Runs `code` through the whole pipeline and returns the lines it
/// produced, in order. Scan errors abort before parsing and are all
/// reported; a parse error is reported alone; the resolver's static
/// errors abort before execution and are all reported; a runtime error
/// stops execution, and the output up to that point is kept, followed by
/// the diagnostic.
pub fn interpret(code: &String) -> (r: Vec<String>) {
    interpret_with_keywords(code, tokens::init_tokens())
}

/// The pipeline over a chosen keyword table; handing it
/// `init_tokens_localized()` runs programs written in the localized
/// surface syntax end to end.
pub fn interpret_with_keywords(code: &String, token_map: Vec<(String, TokensType)>) -> (r: Vec<
    String,
>)
    requires
        forall|i: int|
            0 <= i < token_map@.len() ==> crate::tokens::keyword_kind_ok(
                #[trigger] token_map@[i].1,
            ),
{
    let mut s = scanner::Scanner::new_with_keywords(code, token_map);
    s.scan();
    if s.errors.len() != 0 {
        return format_errors(&s.errors);
    }
    let mut p = parser::Parser::new(s.tokens);
    p.parse();
    if p.errors.len() != 0 {
        return format_errors(&p.errors);
    }
    let program = Program { statements: p.statements, functions: p.functions, id_count: p.id_count };

    let mut s_a = scope_analyst::ScopeAnalyst::new(program.id_count);
    s_a.analysis(&program);
    if s_a.errors.len() != 0 {
        return format_errors(&s_a.errors);
    }

    let mut inter = interpreter::Interpreter::new(s_a.scope_record, u64::MAX);
    match inter.interpret(&program) {
        Ok(_) => inter.output,
        Err(e) => {
            let mut lines = inter.output;
            lines.push(e.format());
            lines
        },
    }
}

/// Printing a value twice in a row produces the same line twice: the text
/// a print step appends is a function of the printed value alone.
pub proof fn lemma_print_idempotent(output: Seq<Seq<char>>, v: EnvironmentValue)
    requires
        spec_print_text(v) is Some,
    ensures
        ({
            let once = output.push(spec_print_text(v).unwrap());
            let twice = once.push(spec_print_text(v).unwrap());
            &&& twice.len() == output.len() + 2
            &&& twice[twice.len() - 1] == twice[twice.len() - 2]
        }),
{
}

} // verus!
