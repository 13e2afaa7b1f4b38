//! Front end of the language whose expressions the debugger evaluates:
//! tokens, syntax tree, parser and type checker.
pub mod analyzer;
pub mod ast;
pub mod lexer;
pub mod parser;

use crate::compiler::analyzer::{program_errors, texts, SemanticAnalyzer};
use crate::compiler::lexer::Lexer;
use crate::compiler::parser::{parsed_program, Parser};
use vstd::prelude::*;

verus! {

/// A source text and the path that the compiled code is meant for.
pub struct Compiler {
    pub source: String,
    pub output_path: String,
}

impl Compiler {
    pub fn new(source: String, output_path: String) -> (compiler: Self)
        ensures
            compiler.source == source,
            compiler.output_path == output_path,
    {
        Compiler { source, output_path }
    }

    /// Checks the source text: scans it, parses it and checks its types.
    /// The result is `Ok` exactly where the text holds a program with
    /// which nothing is wrong.  The error is that of the parser, or what
    /// the checker found wrong first.
    pub fn compile(&self) -> (r: Result<(), String>)
        ensures
            match parsed_program(self.source@) {
                None => r is Err,
                Some(statements) => if program_errors(statements).len() == 0 {
                    r is Ok
                } else {
                    r is Err && r->Err_0@ == program_errors(statements)[0]
                },
            },
    {
        let mut lexer = Lexer::new(self.source.as_str());
        let tokens = lexer.tokenize();
        let mut parser = Parser::new(tokens);
        let program = match parser.parse() {
            Ok(p) => p,
            Err(e) => {
                return Err(e);
            },
        };
        let mut analyzer = SemanticAnalyzer::new();
        proof {
            assert(analyzer.variables() =~= Seq::<
                (Seq<char>, crate::compiler::ast::TypeModel),
            >::empty());
            assert(analyzer.functions() =~= Seq::<
                (Seq<char>, crate::compiler::analyzer::FunctionModel),
            >::empty());
        }
        match analyzer.analyze(&program) {
            Ok(()) => {
                assert(analyzer.found() =~= Seq::<Seq<char>>::empty());
                Ok(())
            },
            Err(errors) => {
                assert(texts(errors@).len() == errors@.len());
                assert(analyzer.found().len() == analyzer.errors@.len());
                assert(texts(errors@)[0] == errors@[0]@);
                Err(errors[0].clone())
            },
        }
    }
}

} // verus!
