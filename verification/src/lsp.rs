//! What an editor asks of the language: diagnostics for a document, the
//! index of a position, and completions.
use crate::compiler::analyzer::{program_errors, texts, FunctionModel, SemanticAnalyzer};
use crate::compiler::ast::TypeModel;
use crate::compiler::lexer::{lemma_place_positive, place, Lexer};
use crate::compiler::parser::{parsed_program, Parser};
use crate::text::chars_of;
use vstd::prelude::*;

verus! {

/// The diagnostics of a document: what is wrong with its program, or the
/// one error of the parser where the document holds no program.
pub fn validate_document(content: &str) -> (diagnostics: Vec<String>)
    ensures
        match parsed_program(content@) {
            Some(statements) => texts(diagnostics@) == program_errors(statements),
            None => diagnostics@.len() == 1,
        },
{
    let mut lexer = Lexer::new(content);
    let tokens = lexer.tokenize();
    let mut parser = Parser::new(tokens);
    match parser.parse() {
        Ok(program) => {
            let mut analyzer = SemanticAnalyzer::new();
            proof {
                assert(analyzer.variables() =~= Seq::<(Seq<char>, TypeModel)>::empty());
                assert(analyzer.functions() =~= Seq::<(Seq<char>, FunctionModel)>::empty());
            }
            match analyzer.analyze(&program) {
                Ok(()) => {
                    let none: Vec<String> = Vec::new();
                    assert(texts(none@) =~= analyzer.found());
                    none
                },
                Err(errors) => errors,
            }
        },
        Err(error) => {
            let mut one: Vec<String> = Vec::new();
            one.push(error);
            one
        },
    }
}

/// Whether the character at index `i` stands at `line` and `character`,
/// both counted from 0.
pub open spec fn stands_at(text: Seq<char>, i: int, line: int, character: int) -> bool {
    place(text, i) == (line + 1, character + 1)
}

/// The index of the first character from index `from` on that stands at
/// the position, or the length of the text where none does, or 1 where
/// the text is empty.
pub open spec fn index_of(text: Seq<char>, from: int, line: int, character: int) -> int
    decreases text.len() - from,
{
    if from < 0 || from >= text.len() {
        if text.len() == 0 {
            1
        } else {
            text.len() as int
        }
    } else if stands_at(text, from, line, character) {
        from
    } else {
        index_of(text, from + 1, line, character)
    }
}

/// The index of the character at a position of a document, the line and
/// the character in the line both counted from 0: the index of the first
/// character that stands there.  Where none does it is the number of
/// characters of the document, and 1 for an empty document.
pub fn position_to_index(content: &str, line: u32, character: u32) -> (index: usize)
    ensures
        index == index_of(content@, 0, line as int, character as int),
{
    let text = chars_of(content);
    let mut current_line: usize = 0;
    let mut current_character: usize = 0;
    let mut i: usize = 0;
    while i < text.len()
        invariant
            i <= text@.len(),
            text@ == content@,
            place(text@, i as int) == (current_line + 1, current_character + 1),
            current_line <= i,
            current_character <= i,
            index_of(text@, 0, line as int, character as int) == index_of(
                text@,
                i as int,
                line as int,
                character as int,
            ),
        decreases text@.len() - i,
    {
        if current_line == line as usize && current_character == character as usize {
            return i;
        }
        proof {
            let (l, c) = place(text@, i as int);
            assert(place(text@, i + 1) == if text@[i as int] == '\n' {
                (l + 1, 1int)
            } else {
                (l, c + 1)
            });
        }
        if text[i] == '\n' {
            current_line += 1;
            current_character = 0;
        } else {
            current_character += 1;
        }
        i += 1;
    }
    if text.len() == 0 {
        1
    } else {
        text.len()
    }
}

/// The completions that are offered everywhere: each a word and what it
/// is for.
pub fn get_completion_items() -> (items: Vec<(String, String)>)
    ensures
        items@.len() == 2,
        items@[0].0@ == "fn"@ && items@[0].1@ == "Function declaration"@,
        items@[1].0@ == "let"@ && items@[1].1@ == "Variable declaration"@,
{
    let mut items: Vec<(String, String)> = Vec::new();
    items.push(("fn".to_owned(), "Function declaration".to_owned()));
    items.push(("let".to_owned(), "Variable declaration".to_owned()));
    items
}

} // verus!
