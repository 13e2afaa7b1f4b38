//! The canonical layout of source text.
use crate::compiler::ast::{
    expression_models, field_models, lemma_expression_models, lemma_field_models,
    lemma_statement_models, lemma_typed_name_models, operator_text, optional_type_model,
    statement_models, type_text, typed_name_models, Expression, ExpressionModel, Program,
    Statement, StatementModel, Type, TypeModel,
};
use crate::compiler::lexer::Lexer;
use crate::compiler::parser::{parsed_program, Parser};
use crate::text::{chars_of, push_all, push_signed_decimal, signed_decimal_text, string_from_chars};
use vstd::prelude::*;

verus! {

/// The text of an expression: operands and operators with one blank
/// between them, arguments and elements with a comma and a blank.
pub open spec fn expression_text(e: ExpressionModel) -> Seq<char>
    decreases e, 0nat,
{
    match e {
        ExpressionModel::Integer(value) => signed_decimal_text(value as int),
        ExpressionModel::Float(text) => text,
        ExpressionModel::String(text) => seq!['"'] + text + seq!['"'],
        ExpressionModel::Boolean(value) => if value {
            "true"@
        } else {
            "false"@
        },
        ExpressionModel::Identifier(name) => name,
        ExpressionModel::Binary { left, operator, right } => expression_text(*left) + seq![' ']
            + operator_text(operator) + seq![' '] + expression_text(*right),
        ExpressionModel::Call { function, arguments } => expression_text(*function) + seq!['(']
            + list_text(arguments, 0) + seq![')'],
        ExpressionModel::ArrayLiteral(elements) => seq!['['] + list_text(elements, 0) + seq![']'],
        ExpressionModel::StructLiteral { name, fields } => name + " { "@ + field_values_text(
            fields,
            0,
        ) + " }"@,
    }
}

/// The texts of the expressions from index `from` on, with a comma and a
/// blank between them.
pub open spec fn list_text(es: Seq<ExpressionModel>, from: int) -> Seq<char>
    decreases es, es.len() - from,
{
    if 0 <= from < es.len() {
        (if from > 0 {
            ", "@
        } else {
            Seq::<char>::empty()
        }) + expression_text(es[from]) + list_text(es, from + 1)
    } else {
        Seq::<char>::empty()
    }
}

/// The fields of a struct literal from index `from` on: each a name, a
/// colon, a blank and a value, with a comma and a blank between them.
pub open spec fn field_values_text(fields: Seq<(Seq<char>, ExpressionModel)>, from: int) -> Seq<
    char,
>
    decreases fields, fields.len() - from,
{
    if 0 <= from < fields.len() {
        (if from > 0 {
            ", "@
        } else {
            Seq::<char>::empty()
        }) + fields[from].0 + ": "@ + expression_text(fields[from].1) + field_values_text(
            fields,
            from + 1,
        )
    } else {
        Seq::<char>::empty()
    }
}

/// `level` copies of the indentation unit.
pub open spec fn indentation(level: nat, unit: Seq<char>) -> Seq<char>
    decreases level,
{
    if level == 0 {
        Seq::<char>::empty()
    } else {
        indentation((level - 1) as nat, unit) + unit
    }
}

/// The level inside a block at `level`.
pub open spec fn deeper(level: usize) -> usize {
    if level < usize::MAX {
        (level + 1) as usize
    } else {
        level
    }
}

/// Names with their types from index `from` on, as the parameters of a
/// function are written: with a comma and a blank between them.
pub open spec fn params_text(params: Seq<(Seq<char>, TypeModel)>, from: int) -> Seq<char>
    decreases params.len() - from,
{
    if 0 <= from < params.len() {
        (if from > 0 {
            ", "@
        } else {
            Seq::<char>::empty()
        }) + params[from].0 + ": "@ + type_text(params[from].1) + params_text(params, from + 1)
    } else {
        Seq::<char>::empty()
    }
}

/// Names with their types from index `from` on, as the fields of a struct
/// are written: each on a line of its own, indented, with a comma.
pub open spec fn fields_text(
    fields: Seq<(Seq<char>, TypeModel)>,
    from: int,
    level: usize,
    unit: Seq<char>,
) -> Seq<char>
    decreases fields.len() - from,
{
    if 0 <= from < fields.len() {
        indentation(level as nat, unit) + fields[from].0 + ": "@ + type_text(fields[from].1)
            + ",\n"@ + fields_text(fields, from + 1, level, unit)
    } else {
        Seq::<char>::empty()
    }
}

/// The head of a function: its name, its parameters and its result.
pub open spec fn head_text(
    name: Seq<char>,
    params: Seq<(Seq<char>, TypeModel)>,
    return_type: Option<TypeModel>,
) -> Seq<char> {
    "fn "@ + name + seq!['('] + params_text(params, 0) + seq![')'] + (match return_type {
        Some(t) => " -> "@ + type_text(t),
        None => Seq::<char>::empty(),
    }) + seq![' ']
}

/// The text of a struct that stands at `level`.
pub open spec fn struct_text(
    name: Seq<char>,
    fields: Seq<(Seq<char>, TypeModel)>,
    level: usize,
    unit: Seq<char>,
) -> Seq<char> {
    "struct "@ + name + " {\n"@ + fields_text(fields, 0, deeper(level), unit) + indentation(
        level as nat,
        unit,
    ) + "}\n"@
}

/// The text of a statement that stands at `level`, from its first
/// character on: its own indentation is not part of it.
pub open spec fn statement_text(s: StatementModel, level: usize, unit: Seq<char>) -> Seq<char>
    decreases s, 0nat,
{
    match s {
        StatementModel::Let { name, type_annotation, initializer } => "let "@ + name + (
        match type_annotation {
            Some(t) => ": "@ + type_text(t),
            None => Seq::<char>::empty(),
        }) + " = "@ + expression_text(initializer) + ";\n"@,
        StatementModel::Function { name, params, return_type, body } => head_text(
            name,
            params,
            return_type,
        ) + block_text(body, level, unit),
        StatementModel::Return(value) => match value {
            Some(e) => "return "@ + expression_text(e) + ";\n"@,
            None => "return;\n"@,
        },
        StatementModel::Expression(e) => expression_text(e) + ";\n"@,
        StatementModel::If { condition, then_branch, else_branch } => "if "@ + expression_text(
            condition,
        ) + seq![' '] + block_text(then_branch, level, unit) + (match else_branch {
            Some(statements) => indentation(level as nat, unit) + "else "@ + block_text(
                statements,
                level,
                unit,
            ),
            None => Seq::<char>::empty(),
        }),
        StatementModel::While { condition, body } => "while "@ + expression_text(condition)
            + seq![' '] + block_text(body, level, unit),
        StatementModel::Struct { name, fields } => struct_text(name, fields, level, unit),
    }
}

/// The text of a block at `level`: an opening brace, its statements one
/// level deeper, each indented, and the closing brace at `level`.
pub open spec fn block_text(statements: Seq<StatementModel>, level: usize, unit: Seq<char>) -> Seq<
    char,
>
    decreases statements, statements.len() + 1,
{
    "{\n"@ + statements_text(statements, 0, deeper(level), unit) + indentation(
        level as nat,
        unit,
    ) + "}\n"@
}

/// The statements from index `from` on, each indented to `level`.
pub open spec fn statements_text(
    statements: Seq<StatementModel>,
    from: int,
    level: usize,
    unit: Seq<char>,
) -> Seq<char>
    decreases statements, statements.len() - from,
{
    if 0 <= from < statements.len() {
        indentation(level as nat, unit) + statement_text(statements[from], level, unit)
            + statements_text(statements, from + 1, level, unit)
    } else {
        Seq::<char>::empty()
    }
}

/// The text of a program whose top stands at `level`: each statement of
/// its top, followed by an empty line.
pub open spec fn program_text(
    statements: Seq<StatementModel>,
    from: int,
    level: usize,
    unit: Seq<char>,
) -> Seq<char>
    decreases statements.len() - from,
{
    if 0 <= from < statements.len() {
        statement_text(statements[from], level, unit) + seq!['\n'] + program_text(
            statements,
            from + 1,
            level,
            unit,
        )
    } else {
        Seq::<char>::empty()
    }
}

/// Lays out source text.
pub struct Formatter {
    pub indent_level: usize,
    pub indent_str: String,
    pub line_width: usize,
    pub output: Vec<char>,
}

impl Formatter {
    /// A formatter that indents by four blanks.
    pub fn new() -> (formatter: Self)
        ensures
            formatter.indent_level == 0,
            formatter.indent_str@ == "    "@,
            formatter.line_width == 100,
            formatter.output@.len() == 0,
    {
        Formatter {
            indent_level: 0,
            indent_str: "    ".to_owned(),
            line_width: 100,
            output: Vec::new(),
        }
    }

    /// Whether `after` is the formatter `before` with `text` written.
    pub open spec fn wrote(before: Formatter, after: Formatter, text: Seq<char>) -> bool {
        &&& after.indent_level == before.indent_level
        &&& after.indent_str == before.indent_str
        &&& after.line_width == before.line_width
        &&& after.output@ == before.output@ + text
    }

    /// The source text in its canonical layout, or the error of the
    /// parser where the text holds no program.
    pub fn format(&mut self, source: &str) -> (r: Result<String, String>)
        ensures
            final(self).indent_str == old(self).indent_str,
            final(self).line_width == old(self).line_width,
            match parsed_program(source@) {
                Some(statements) => r is Ok && r->Ok_0@ == program_text(
                    statements,
                    0,
                    0,
                    old(self).indent_str@,
                ) && final(self).output@ == r->Ok_0@ && final(self).indent_level == 0,
                None => r is Err && final(self).output == old(self).output && final(self).indent_level == old(self).indent_level,
            },
    {
        let mut lexer = Lexer::new(source);
        let tokens = lexer.tokenize();
        let mut parser = Parser::new(tokens);
        let program = match parser.parse() {
            Ok(p) => p,
            Err(e) => {
                return Err(e);
            },
        };
        self.indent_level = 0;
        self.output.clear();
        self.format_ast(&program);
        assert(self.output@ =~= program_text(program@, 0, 0, old(self).indent_str@));
        Ok(string_from_chars(&self.output))
    }

    /// Writes a program.
    pub fn format_ast(&mut self, ast: &Program)
        ensures
            Self::wrote(
                *old(self),
                *final(self),
                program_text(ast@, 0, old(self).indent_level, old(self).indent_str@),
            ),
    {
        let mut i: usize = 0;
        let ghost unit = self.indent_str@;
        let ghost level = self.indent_level;
        let ghost items = ast@;
        proof {
            lemma_statement_models(ast.statements@, ast.statements@.len() as int);
        }
        assert(self.output@ =~= old(self).output@ + Seq::<char>::empty());
        while i < ast.statements.len()
            invariant
                i <= ast.statements@.len(),
                items == ast@,
                items.len() == ast.statements@.len(),
                forall|k: int| 0 <= k < items.len() ==> #[trigger] items[k] == ast.statements@[k]@,
                unit == old(self).indent_str@,
                level == old(self).indent_level,
                self.indent_level == old(self).indent_level,
                self.indent_str == old(self).indent_str,
                self.line_width == old(self).line_width,
                self.output@ + program_text(items, i as int, level, unit) == old(self).output@
                    + program_text(items, 0, level, unit),
            decreases ast.statements@.len() - i,
        {
            let ghost before = self.output@;
            self.format_item(&ast.statements[i]);
            self.newline();
            proof {
                let item = statement_text(items[i as int], level, unit);
                let rest = program_text(items, i + 1, level, unit);
                assert(before + (item + seq!['\n'] + rest) =~= (before + item + seq!['\n']) + rest);
            }
            i += 1;
        }
        assert(self.output@ + Seq::<char>::empty() =~= self.output@);
    }

    /// Writes one statement of the top of a program.
    pub fn format_item(&mut self, item: &Statement)
        ensures
            Self::wrote(
                *old(self),
                *final(self),
                statement_text(item@, old(self).indent_level, old(self).indent_str@),
            ),
    {
        self.format_statement(item)
    }

    /// Writes the text of a literal.
    fn write(&mut self, text: &str)
        ensures
            Self::wrote(*old(self), *final(self), text@),
    {
        let chars = chars_of(text);
        push_all(&mut self.output, &chars);
    }

    /// Writes the text of a string.
    fn write_string(&mut self, text: &String)
        ensures
            Self::wrote(*old(self), *final(self), text@),
    {
        let chars = chars_of(text.as_str());
        push_all(&mut self.output, &chars);
    }

    /// Writes one character.
    fn write_char(&mut self, c: char)
        ensures
            Self::wrote(*old(self), *final(self), seq![c]),
    {
        self.output.push(c);
        assert(self.output@ =~= old(self).output@ + seq![c]);
    }

    /// Writes the text of a type.
    fn write_type(&mut self, t: &Type)
        ensures
            Self::wrote(*old(self), *final(self), type_text(t@)),
    {
        t.push_text(&mut self.output);
    }

    /// Writes the head of a function.
    fn format_head(&mut self, name: &String, params: &Vec<(String, Type)>, return_type: &Option<Type>)
        ensures
            Self::wrote(
                *old(self),
                *final(self),
                head_text(
                    name@,
                    typed_name_models(params@, params@.len() as int),
                    optional_type_model(*return_type),
                ),
            ),
    {
        let ghost models = typed_name_models(params@, params@.len() as int);
        proof {
            lemma_typed_name_models(params@, params@.len() as int);
        }
        self.write("fn ");
        self.write_string(name);
        self.write_char('(');
        let ghost start = self.output@;
        let mut i: usize = 0;
        assert(self.output@ =~= start + Seq::<char>::empty());
        while i < params.len()
            invariant
                i <= params@.len(),
                models == typed_name_models(params@, params@.len() as int),
                models.len() == params@.len(),
                forall|k: int|
                    0 <= k < models.len() ==> #[trigger] models[k] == (
                        params@[k].0@,
                        params@[k].1@,
                    ),
                self.indent_level == old(self).indent_level,
                self.indent_str == old(self).indent_str,
                self.line_width == old(self).line_width,
                self.output@ + params_text(models, i as int) == start + params_text(models, 0),
            decreases params@.len() - i,
        {
            let ghost before = self.output@;
            if i > 0 {
                self.write(", ");
            }
            self.write_string(&params[i].0);
            self.write(": ");
            self.write_type(&params[i].1);
            proof {
                let head = if i > 0 {
                    ", "@
                } else {
                    Seq::<char>::empty()
                };
                let rest = params_text(models, i + 1);
                assert(before + (head + models[i as int].0 + ": "@ + type_text(models[i as int].1)
                    + rest) =~= (before + head + models[i as int].0 + ": "@ + type_text(
                    models[i as int].1,
                )) + rest);
            }
            i += 1;
        }
        assert(self.output@ + Seq::<char>::empty() =~= self.output@);
        self.write_char(')');
        match return_type {
            Some(t) => {
                self.write(" -> ");
                self.write_type(t);
            },
            None => {},
        }
        self.write_char(' ');
        assert(self.output@ =~= old(self).output@ + head_text(
            name@,
            models,
            optional_type_model(*return_type),
        ));
    }

    /// Writes a function: its head and its body.
    pub fn format_function(
        &mut self,
        name: &String,
        params: &Vec<(String, Type)>,
        return_type: &Option<Type>,
        body: &Vec<Statement>,
    )
        ensures
            Self::wrote(
                *old(self),
                *final(self),
                head_text(
                    name@,
                    typed_name_models(params@, params@.len() as int),
                    optional_type_model(*return_type),
                ) + block_text(
                    statement_models(body@, body@.len() as int),
                    old(self).indent_level,
                    old(self).indent_str@,
                ),
            ),
        decreases body, body@.len() + 2,
    {
        self.format_head(name, params, return_type);
        self.format_block(body);
        assert(self.output@ =~= old(self).output@ + (head_text(
            name@,
            typed_name_models(params@, params@.len() as int),
            optional_type_model(*return_type),
        ) + block_text(
            statement_models(body@, body@.len() as int),
            old(self).indent_level,
            old(self).indent_str@,
        )));
    }

    /// Writes a struct: its name and its fields, one on a line.
    pub fn format_struct(&mut self, name: &String, fields: &Vec<(String, Type)>)
        ensures
            Self::wrote(
                *old(self),
                *final(self),
                struct_text(
                    name@,
                    typed_name_models(fields@, fields@.len() as int),
                    old(self).indent_level,
                    old(self).indent_str@,
                ),
            ),
    {
        let level = self.indent_level;
        let ghost unit = self.indent_str@;
        let ghost models = typed_name_models(fields@, fields@.len() as int);
        proof {
            lemma_typed_name_models(fields@, fields@.len() as int);
        }
        self.write("struct ");
        self.write_string(name);
        self.write(" {\n");
        self.indent_level = if level < usize::MAX {
            level + 1
        } else {
            level
        };
        let ghost start = self.output@;
        let mut i: usize = 0;
        assert(self.output@ =~= start + Seq::<char>::empty());
        while i < fields.len()
            invariant
                i <= fields@.len(),
                models == typed_name_models(fields@, fields@.len() as int),
                models.len() == fields@.len(),
                forall|k: int|
                    0 <= k < models.len() ==> #[trigger] models[k] == (
                        fields@[k].0@,
                        fields@[k].1@,
                    ),
                self.indent_level == deeper(level),
                unit == old(self).indent_str@,
                self.indent_str == old(self).indent_str,
                self.line_width == old(self).line_width,
                self.output@ + fields_text(models, i as int, deeper(level), unit) == start
                    + fields_text(models, 0, deeper(level), unit),
            decreases fields@.len() - i,
        {
            let ghost before = self.output@;
            self.indent();
            self.write_string(&fields[i].0);
            self.write(": ");
            self.write_type(&fields[i].1);
            self.write(",\n");
            proof {
                let rest = fields_text(models, i + 1, deeper(level), unit);
                assert(before + (indentation(deeper(level) as nat, unit) + models[i as int].0
                    + ": "@ + type_text(models[i as int].1) + ",\n"@ + rest) =~= (before
                    + indentation(deeper(level) as nat, unit) + models[i as int].0 + ": "@
                    + type_text(models[i as int].1) + ",\n"@) + rest);
            }
            i += 1;
        }
        assert(self.output@ + Seq::<char>::empty() =~= self.output@);
        self.indent_level = level;
        self.indent();
        self.write("}\n");
        assert(self.output@ =~= old(self).output@ + struct_text(name@, models, level, unit));
    }

    /// Writes a block: its statements between braces, one level deeper.
    pub fn format_block(&mut self, block: &Vec<Statement>)
        ensures
            Self::wrote(
                *old(self),
                *final(self),
                block_text(
                    statement_models(block@, block@.len() as int),
                    old(self).indent_level,
                    old(self).indent_str@,
                ),
            ),
        decreases block, block@.len() + 1,
    {
        let level = self.indent_level;
        let ghost unit = self.indent_str@;
        let ghost models = statement_models(block@, block@.len() as int);
        proof {
            lemma_statement_models(block@, block@.len() as int);
        }
        self.write("{\n");
        self.indent_level = if level < usize::MAX {
            level + 1
        } else {
            level
        };
        let ghost start = self.output@;
        let mut i: usize = 0;
        assert(self.output@ =~= start + Seq::<char>::empty());
        while i < block.len()
            invariant
                i <= block@.len(),
                models == statement_models(block@, block@.len() as int),
                models.len() == block@.len(),
                forall|k: int| 0 <= k < models.len() ==> #[trigger] models[k] == block@[k]@,
                self.indent_level == deeper(level),
                unit == old(self).indent_str@,
                self.indent_str == old(self).indent_str,
                self.line_width == old(self).line_width,
                self.output@ + statements_text(models, i as int, deeper(level), unit) == start
                    + statements_text(models, 0, deeper(level), unit),
            decreases block@.len() - i,
        {
            let ghost before = self.output@;
            self.indent();
            self.format_statement(&block[i]);
            proof {
                let rest = statements_text(models, i + 1, deeper(level), unit);
                assert(before + (indentation(deeper(level) as nat, unit) + statement_text(
                    models[i as int],
                    deeper(level),
                    unit,
                ) + rest) =~= (before + indentation(deeper(level) as nat, unit) + statement_text(
                    models[i as int],
                    deeper(level),
                    unit,
                )) + rest);
            }
            i += 1;
        }
        assert(self.output@ + Seq::<char>::empty() =~= self.output@);
        self.indent_level = level;
        self.indent();
        self.write("}\n");
        assert(self.output@ =~= old(self).output@ + block_text(models, level, unit));
    }

    /// Writes a `let` statement.
    fn format_let(&mut self, name: &String, type_annotation: &Option<Type>, initializer: &Expression)
        ensures
            Self::wrote(
                *old(self),
                *final(self),
                "let "@ + name@ + (match optional_type_model(*type_annotation) {
                    Some(t) => ": "@ + type_text(t),
                    None => Seq::<char>::empty(),
                }) + " = "@ + expression_text(initializer@) + ";\n"@,
            ),
    {
        self.write("let ");
        self.write_string(name);
        match type_annotation {
            Some(t) => {
                self.write(": ");
                self.write_type(t);
            },
            None => {},
        }
        self.write(" = ");
        let text = self.format_expression(initializer);
        push_all(&mut self.output, &text);
        self.write(";\n");
        assert(self.output@ =~= old(self).output@ + ("let "@ + name@ + (match optional_type_model(
            *type_annotation,
        ) {
            Some(t) => ": "@ + type_text(t),
            None => Seq::<char>::empty(),
        }) + " = "@ + expression_text(initializer@) + ";\n"@));
    }

    /// Writes a `return` statement.
    fn format_return(&mut self, value: &Option<Expression>)
        ensures
            Self::wrote(
                *old(self),
                *final(self),
                match *value {
                    Some(e) => "return "@ + expression_text(e@) + ";\n"@,
                    None => "return;\n"@,
                },
            ),
    {
        match value {
            Some(e) => {
                self.write("return ");
                let text = self.format_expression(e);
                push_all(&mut self.output, &text);
                self.write(";\n");
                assert(self.output@ =~= old(self).output@ + ("return "@ + expression_text(e@)
                    + ";\n"@));
            },
            None => {
                self.write("return;\n");
            },
        }
    }

    /// Writes a keyword, a condition and a blank: the start of an `if` or
    /// a `while` statement.
    fn format_condition(&mut self, keyword: &str, condition: &Expression)
        ensures
            Self::wrote(
                *old(self),
                *final(self),
                keyword@ + expression_text(condition@) + seq![' '],
            ),
    {
        self.write(keyword);
        let text = self.format_expression(condition);
        push_all(&mut self.output, &text);
        self.write_char(' ');
        assert(self.output@ =~= old(self).output@ + (keyword@ + expression_text(condition@)
            + seq![' ']));
    }

    /// Writes an `else` branch, where there is one.
    fn format_else(&mut self, else_branch: &Option<Vec<Statement>>)
        ensures
            Self::wrote(
                *old(self),
                *final(self),
                match *else_branch {
                    Some(statements) => indentation(
                        old(self).indent_level as nat,
                        old(self).indent_str@,
                    ) + "else "@ + block_text(
                        statement_models(statements@, statements@.len() as int),
                        old(self).indent_level,
                        old(self).indent_str@,
                    ),
                    None => Seq::<char>::empty(),
                },
            ),
        decreases else_branch, 0nat,
    {
        match else_branch {
            Some(statements) => {
                let ghost level = self.indent_level;
                let ghost unit = self.indent_str@;
                self.indent();
                self.write("else ");
                self.format_block(statements);
                assert(self.output@ =~= old(self).output@ + (indentation(level as nat, unit)
                    + "else "@ + block_text(
                    statement_models(statements@, statements@.len() as int),
                    level,
                    unit,
                )));
            },
            None => {
                assert(self.output@ =~= old(self).output@ + Seq::<char>::empty());
            },
        }
    }

    /// Writes a statement, from its first character on.
    pub fn format_statement(&mut self, stmt: &Statement)
        ensures
            Self::wrote(
                *old(self),
                *final(self),
                statement_text(stmt@, old(self).indent_level, old(self).indent_str@),
            ),
        decreases stmt, 1nat,
    {
        let ghost unit = self.indent_str@;
        let ghost level = self.indent_level;
        match stmt {
            Statement::Let { name, type_annotation, initializer } => {
                self.format_let(name, type_annotation, initializer);
            },
            Statement::Function { name, params, return_type, body } => {
                self.format_function(name, params, return_type, body);
            },
            Statement::Return(value) => {
                self.format_return(value);
            },
            Statement::Expression(e) => {
                let text = self.format_expression(e);
                push_all(&mut self.output, &text);
                self.write(";\n");
                assert(self.output@ =~= old(self).output@ + (expression_text(e@) + ";\n"@));
            },
            Statement::If { condition, then_branch, else_branch } => {
                self.format_condition("if ", condition);
                self.format_block(then_branch);
                self.format_else(else_branch);
                assert(self.output@ =~= old(self).output@ + statement_text(stmt@, level, unit));
            },
            Statement::While { condition, body } => {
                self.format_condition("while ", condition);
                self.format_block(body);
                assert(self.output@ =~= old(self).output@ + statement_text(stmt@, level, unit));
            },
            Statement::Struct { name, fields } => {
                self.format_struct(name, fields);
            },
        }
    }

    /// The text of an expression.
    pub fn format_expression(&self, expr: &Expression) -> (text: Vec<char>)
        ensures
            text@ == expression_text(expr@),
        decreases expr, 0nat,
    {
        let mut out: Vec<char> = Vec::new();
        match expr {
            Expression::Integer(value) => {
                push_signed_decimal(&mut out, *value);
            },
            Expression::Float(text) => {
                let chars = chars_of(text.as_str());
                push_all(&mut out, &chars);
            },
            Expression::String(text) => {
                out.push('"');
                let chars = chars_of(text.as_str());
                push_all(&mut out, &chars);
                out.push('"');
            },
            Expression::Boolean(value) => {
                let chars = if *value {
                    chars_of("true")
                } else {
                    chars_of("false")
                };
                push_all(&mut out, &chars);
            },
            Expression::Identifier(name) => {
                let chars = chars_of(name.as_str());
                push_all(&mut out, &chars);
            },
            Expression::Binary { left, operator, right } => {
                let l = self.format_expression(left);
                push_all(&mut out, &l);
                out.push(' ');
                operator.push_symbol(&mut out);
                out.push(' ');
                let r = self.format_expression(right);
                push_all(&mut out, &r);
            },
            Expression::Call { function, arguments } => {
                let f = self.format_expression(function);
                push_all(&mut out, &f);
                out.push('(');
                let list = self.format_list(arguments, 0);
                push_all(&mut out, &list);
                out.push(')');
            },
            Expression::ArrayLiteral(elements) => {
                out.push('[');
                let list = self.format_list(elements, 0);
                push_all(&mut out, &list);
                out.push(']');
            },
            Expression::StructLiteral { name, fields } => {
                let chars = chars_of(name.as_str());
                push_all(&mut out, &chars);
                let open = chars_of(" { ");
                push_all(&mut out, &open);
                let list = self.format_field_values(fields, 0);
                push_all(&mut out, &list);
                let close = chars_of(" }");
                push_all(&mut out, &close);
            },
        }
        assert(out@ =~= expression_text(expr@));
        out
    }

    /// The texts of the expressions from index `from` on.
    fn format_list(&self, es: &Vec<Expression>, from: usize) -> (text: Vec<char>)
        ensures
            text@ == list_text(expression_models(es@, es@.len() as int), from as int),
        decreases es, es@.len() - from,
    {
        let mut out: Vec<char> = Vec::new();
        proof {
            lemma_expression_models(es@, es@.len() as int);
        }
        if from < es.len() {
            if from > 0 {
                let separator = chars_of(", ");
                push_all(&mut out, &separator);
            }
            let head = self.format_expression(&es[from]);
            push_all(&mut out, &head);
            let rest = self.format_list(es, from + 1);
            push_all(&mut out, &rest);
        }
        assert(out@ =~= list_text(expression_models(es@, es@.len() as int), from as int));
        out
    }

    /// The fields of a struct literal from index `from` on.
    fn format_field_values(&self, fields: &Vec<(String, Expression)>, from: usize) -> (text: Vec<
        char,
    >)
        ensures
            text@ == field_values_text(field_models(fields@, fields@.len() as int), from as int),
        decreases fields, fields@.len() - from,
    {
        let mut out: Vec<char> = Vec::new();
        proof {
            lemma_field_models(fields@, fields@.len() as int);
        }
        if from < fields.len() {
            if from > 0 {
                let separator = chars_of(", ");
                push_all(&mut out, &separator);
            }
            let name = chars_of(fields[from].0.as_str());
            push_all(&mut out, &name);
            let colon = chars_of(": ");
            push_all(&mut out, &colon);
            let head = self.format_expression(&fields[from].1);
            push_all(&mut out, &head);
            let rest = self.format_field_values(fields, from + 1);
            push_all(&mut out, &rest);
        }
        assert(out@ =~= field_values_text(
            field_models(fields@, fields@.len() as int),
            from as int,
        ));
        out
    }

    /// Writes the indentation of the current level.
    pub fn indent(&mut self)
        ensures
            Self::wrote(
                *old(self),
                *final(self),
                indentation(old(self).indent_level as nat, old(self).indent_str@),
            ),
    {
        let unit = chars_of(self.indent_str.as_str());
        let mut i: usize = 0;
        assert(self.output@ =~= old(self).output@ + indentation(0, unit@));
        while i < self.indent_level
            invariant
                i <= self.indent_level,
                unit@ == self.indent_str@,
                self.indent_level == old(self).indent_level,
                self.indent_str == old(self).indent_str,
                self.line_width == old(self).line_width,
                self.output@ == old(self).output@ + indentation(i as nat, unit@),
            decreases self.indent_level - i,
        {
            push_all(&mut self.output, &unit);
            assert(old(self).output@ + indentation(i as nat, unit@) + unit@ =~= old(self).output@
                + (indentation(i as nat, unit@) + unit@));
            i += 1;
        }
    }

    /// Ends a line.
    pub fn newline(&mut self)
        ensures
            Self::wrote(*old(self), *final(self), seq!['\n']),
    {
        self.write_char('\n');
    }
}

} // verus!
