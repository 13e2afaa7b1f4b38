//! The type checker: declarations are collected first, then every
//! statement is checked against them.
use crate::compiler::ast::{
    expression_model, expression_models, lemma_expression_models, lemma_statement_models, lemma_typed_name_models,
    optional_type_model, same_type, statement_models, type_text, typed_name_models, Expression,
    ExpressionModel, Program, Statement, StatementModel, Type, TypeModel,
};
use crate::text::{chars_of, decimal_text, push_all, push_decimal, string_from_chars};
use vstd::prelude::*;

verus! {

/// The names that are known at one place of a program.  Of two entries
/// for one name the later one holds.
pub struct TypeEnvironment {
    pub variables: Vec<(String, Type)>,
    pub functions: Vec<(String, FunctionType)>,
    pub structs: Vec<(String, StructType)>,
}

/// The parameters and the result of a function.
pub struct FunctionType {
    pub params: Vec<(String, Type)>,
    pub return_type: Option<Type>,
}

/// The fields of a struct.
pub struct StructType {
    pub fields: Vec<(String, Type)>,
}

/// Checks the types of a program and keeps what it finds wrong.
pub struct SemanticAnalyzer {
    pub environment: TypeEnvironment,
    pub errors: Vec<String>,
}

/// The parameters and the result of a function, as mathematical values.
pub struct FunctionModel {
    pub params: Seq<(Seq<char>, TypeModel)>,
    pub return_type: Option<TypeModel>,
}

/// Names with their types.
pub type Names = Seq<(Seq<char>, TypeModel)>;

/// Names with their functions.
pub type Functions = Seq<(Seq<char>, FunctionModel)>;

impl View for FunctionType {
    type V = FunctionModel;

    open spec fn view(&self) -> FunctionModel {
        FunctionModel {
            params: typed_name_models(self.params@, self.params@.len() as int),
            return_type: optional_type_model(self.return_type),
        }
    }
}

/// The mathematical values of the first `n` functions of an environment.
pub open spec fn function_models(items: Seq<(String, FunctionType)>, n: int) -> Functions
    decreases n,
{
    if 0 < n <= items.len() {
        function_models(items, n - 1).push((items[n - 1].0@, items[n - 1].1@))
    } else {
        Seq::<(Seq<char>, FunctionModel)>::empty()
    }
}

/// `function_models` has one value for each of the first `n` functions.
pub proof fn lemma_function_models(items: Seq<(String, FunctionType)>, n: int)
    requires
        0 <= n <= items.len(),
    ensures
        function_models(items, n).len() == n,
        forall|i: int|
            0 <= i < n ==> #[trigger] function_models(items, n)[i] == (items[i].0@, items[i].1@),
    decreases n,
{
    if n > 0 {
        lemma_function_models(items, n - 1);
    }
}

/// The texts of some messages.
pub open spec fn texts(messages: Seq<String>) -> Seq<Seq<char>> {
    Seq::new(messages.len(), |i: int| messages[i]@)
}

/// Index of the last entry for `name`, or -1 where there is none.
pub open spec fn last_named<T>(entries: Seq<(Seq<char>, T)>, name: Seq<char>) -> int
    decreases entries.len(),
{
    if entries.len() == 0 {
        -1
    } else if entries.last().0 == name {
        entries.len() - 1
    } else {
        last_named(entries.drop_last(), name)
    }
}

/// The message about two types that do not agree.
pub open spec fn mismatch_text(heading: Seq<char>, expected: TypeModel, found: TypeModel) -> Seq<char> {
    heading + type_text(expected) + ", found "@ + type_text(found)
}

/// The message about a call with the wrong number of arguments.
pub open spec fn count_text(expected: nat, found: nat) -> Seq<char> {
    "Wrong number of arguments: expected "@ + (decimal_text(expected) + ", found "@ + decimal_text(
        found,
    ))
}

/// One message where `wrong`, none where not.
pub open spec fn message_if(wrong: bool, text: Seq<char>) -> Seq<Seq<char>> {
    if wrong {
        seq![text]
    } else {
        Seq::<Seq<char>>::empty()
    }
}

/// The type of an expression, `None` where it has none, and what is
/// wrong with it.  A literal has its type; a name has the type of the
/// last variable of that name; the operands of an operator are to be of
/// one type, and the result is a truth value for a comparison, else of
/// the type of the left operand; a call is to name a function, and its
/// arguments are to agree with the parameters in number and in type.  An
/// expression without a type ends the check of what it is part of.
pub open spec fn typed(e: ExpressionModel, variables: Names, functions: Functions) -> (
    Option<TypeModel>,
    Seq<Seq<char>>,
)
    decreases e, 0nat,
{
    match e {
        ExpressionModel::Integer(_) => (Some(TypeModel::Int), Seq::<Seq<char>>::empty()),
        ExpressionModel::Float(_) => (Some(TypeModel::Float), Seq::<Seq<char>>::empty()),
        ExpressionModel::String(_) => (Some(TypeModel::String), Seq::<Seq<char>>::empty()),
        ExpressionModel::Boolean(_) => (Some(TypeModel::Bool), Seq::<Seq<char>>::empty()),
        ExpressionModel::Identifier(name) => {
            let i = last_named(variables, name);
            if 0 <= i < variables.len() {
                (Some(variables[i].1), Seq::<Seq<char>>::empty())
            } else {
                (None, seq!["Undefined variable: "@ + name])
            }
        },
        ExpressionModel::Binary { left, operator, right } => {
            let (left_type, left_errors) = typed(*left, variables, functions);
            match left_type {
                None => (None, left_errors),
                Some(a) => {
                    let (right_type, right_errors) = typed(*right, variables, functions);
                    match right_type {
                        None => (None, left_errors + right_errors),
                        Some(b) => (
                            Some(
                                if operator.compares() {
                                    TypeModel::Bool
                                } else {
                                    a
                                },
                            ),
                            left_errors + right_errors + message_if(
                                a != b,
                                mismatch_text("Binary operation type mismatch: "@, a, b),
                            ),
                        ),
                    }
                },
            }
        },
        ExpressionModel::Call { function, arguments } => match *function {
            ExpressionModel::Identifier(name) => {
                let i = last_named(functions, name);
                if 0 <= i < functions.len() {
                    let f = functions[i].1;
                    let (fine, errors) = typed_arguments(
                        arguments,
                        0,
                        f.params,
                        variables,
                        functions,
                    );
                    (
                        if fine {
                            Some(
                                match f.return_type {
                                    Some(t) => t,
                                    None => TypeModel::Int,
                                },
                            )
                        } else {
                            None
                        },
                        message_if(
                            arguments.len() != f.params.len(),
                            count_text(f.params.len(), arguments.len()),
                        ) + errors,
                    )
                } else {
                    (None, seq!["Undefined function: "@ + name])
                }
            },
            _ => (None, seq!["Invalid function call"@]),
        },
        _ => (None, seq!["Unsupported expression"@]),
    }
}

/// Whether the arguments from index `from` on, as far as there are
/// parameters for them, all have types, and what is wrong with them.
pub open spec fn typed_arguments(
    arguments: Seq<ExpressionModel>,
    from: int,
    params: Names,
    variables: Names,
    functions: Functions,
) -> (bool, Seq<Seq<char>>)
    decreases arguments, arguments.len() - from,
{
    if 0 <= from < arguments.len() && from < params.len() {
        let (found, errors) = typed(arguments[from], variables, functions);
        match found {
            None => (false, errors),
            Some(t) => {
                let (fine, rest) = typed_arguments(arguments, from + 1, params, variables, functions);
                (
                    fine,
                    errors + message_if(
                        t != params[from].1,
                        mismatch_text("Argument type mismatch: expected "@, params[from].1, t),
                    ) + rest,
                )
            },
        }
    } else {
        (true, Seq::<Seq<char>>::empty())
    }
}

/// What is wrong with a condition of the type `t`.
pub open spec fn condition_errors(t: TypeModel, text: Seq<char>) -> Seq<Seq<char>> {
    message_if(!(t is Bool), text)
}

/// The variables after a statement, and what is wrong with it.  A `let`
/// declares its variable with the type of its initializer, which is to
/// agree with its annotation; the parameters of a function and what its
/// body declares are known in its body only; a condition is to be a
/// truth value.
pub open spec fn checked(s: StatementModel, variables: Names, functions: Functions) -> (
    Names,
    Seq<Seq<char>>,
)
    decreases s, 0nat,
{
    match s {
        StatementModel::Let { name, type_annotation, initializer } => {
            let (found, errors) = typed(initializer, variables, functions);
            match found {
                None => (variables, errors),
                Some(t) => (
                    variables.push((name, t)),
                    errors + (match type_annotation {
                        Some(a) => message_if(
                            t != a,
                            mismatch_text("Type mismatch: expected "@, a, t),
                        ),
                        None => Seq::<Seq<char>>::empty(),
                    }),
                ),
            }
        },
        StatementModel::Function { name, params, return_type, body } => (
            variables,
            checked_block(body, 0, variables + params, functions).1,
        ),
        StatementModel::Return(value) => match value {
            Some(e) => (variables, typed(e, variables, functions).1),
            None => (variables, Seq::<Seq<char>>::empty()),
        },
        StatementModel::Expression(e) => (variables, typed(e, variables, functions).1),
        StatementModel::If { condition, then_branch, else_branch } => {
            let (found, errors) = typed(condition, variables, functions);
            match found {
                None => (variables, errors),
                Some(t) => {
                    let (after_then, then_errors) = checked_block(
                        then_branch,
                        0,
                        variables,
                        functions,
                    );
                    let (after_else, else_errors) = match else_branch {
                        Some(statements) => checked_block(statements, 0, after_then, functions),
                        None => (after_then, Seq::<Seq<char>>::empty()),
                    };
                    (
                        after_else,
                        errors + condition_errors(t, "If condition must be a boolean"@)
                            + then_errors + else_errors,
                    )
                },
            }
        },
        StatementModel::While { condition, body } => {
            let (found, errors) = typed(condition, variables, functions);
            match found {
                None => (variables, errors),
                Some(t) => {
                    let (after, body_errors) = checked_block(body, 0, variables, functions);
                    (
                        after,
                        errors + condition_errors(t, "While condition must be a boolean"@)
                            + body_errors,
                    )
                },
            }
        },
        StatementModel::Struct { .. } => (variables, Seq::<Seq<char>>::empty()),
    }
}

/// The variables after the statements of a block from index `from` on,
/// and what is wrong with them: every statement is checked.
pub open spec fn checked_block(
    statements: Seq<StatementModel>,
    from: int,
    variables: Names,
    functions: Functions,
) -> (Names, Seq<Seq<char>>)
    decreases statements, statements.len() - from,
{
    if 0 <= from < statements.len() {
        let (after, errors) = checked(statements[from], variables, functions);
        let (end, rest) = checked_block(statements, from + 1, after, functions);
        (end, errors + rest)
    } else {
        (variables, Seq::<Seq<char>>::empty())
    }
}

/// What is wrong with the statements of the top of a program from index
/// `from` on: the check ends with the first statement that is wrong.
pub open spec fn checked_program(
    statements: Seq<StatementModel>,
    from: int,
    variables: Names,
    functions: Functions,
) -> Seq<Seq<char>>
    decreases statements.len() - from,
{
    if 0 <= from < statements.len() {
        let (after, errors) = checked(statements[from], variables, functions);
        if errors.len() > 0 {
            errors
        } else {
            checked_program(statements, from + 1, after, functions)
        }
    } else {
        Seq::<Seq<char>>::empty()
    }
}

/// The functions that the first `n` statements of the top of a program
/// declare, after those that are `known`.
pub open spec fn declared(statements: Seq<StatementModel>, n: int, known: Functions) -> Functions
    decreases n,
{
    if 0 < n <= statements.len() {
        let before = declared(statements, n - 1, known);
        match statements[n - 1] {
            StatementModel::Function { name, params, return_type, body } => before.push(
                (name, FunctionModel { params, return_type }),
            ),
            _ => before,
        }
    } else {
        known
    }
}

/// What is wrong with a program: with its statements, checked against
/// the functions that it declares.
pub open spec fn program_errors(statements: Seq<StatementModel>) -> Seq<Seq<char>> {
    checked_program(
        statements,
        0,
        Seq::<(Seq<char>, TypeModel)>::empty(),
        declared(statements, statements.len() as int, Seq::<(Seq<char>, FunctionModel)>::empty()),
    )
}

/// The text of a message: a heading and a detail.
fn message(heading: &str, detail: &Vec<char>) -> (text: String)
    ensures
        text@ == heading@ + detail@,
{
    let mut out = chars_of(heading);
    push_all(&mut out, detail);
    string_from_chars(&out)
}

/// The text of a message about two types.
fn mismatch(heading: &str, expected: &Type, found: &Type) -> (text: String)
    ensures
        text@ == mismatch_text(heading@, expected@, found@),
{
    let mut out = chars_of(heading);
    let middle = chars_of(", found ");
    expected.push_text(&mut out);
    push_all(&mut out, &middle);
    found.push_text(&mut out);
    string_from_chars(&out)
}

/// The text of a message about the number of arguments.
fn wrong_count(expected: usize, found: usize) -> (text: String)
    ensures
        text@ == count_text(expected as nat, found as nat),
{
    let mut detail: Vec<char> = Vec::new();
    let middle = chars_of(", found ");
    push_decimal(&mut detail, expected as u64);
    push_all(&mut detail, &middle);
    push_decimal(&mut detail, found as u64);
    assert(detail@ =~= decimal_text(expected as nat) + ", found "@ + decimal_text(found as nat));
    message("Wrong number of arguments: expected ", &detail)
}

/// Copies of names with their types.
fn duplicate_fields(fields: &Vec<(String, Type)>) -> (copies: Vec<(String, Type)>)
    ensures
        typed_name_models(copies@, copies@.len() as int) == typed_name_models(
            fields@,
            fields@.len() as int,
        ),
{
    let mut copies: Vec<(String, Type)> = Vec::new();
    let mut i: usize = 0;
    while i < fields.len()
        invariant
            i <= fields@.len(),
            copies@.len() == i,
            forall|k: int|
                0 <= k < i ==> (#[trigger] copies@[k]).0@ == fields@[k].0@ && copies@[k].1@
                    == fields@[k].1@,
        decreases fields@.len() - i,
    {
        copies.push((fields[i].0.clone(), fields[i].1.duplicate()));
        i += 1;
    }
    proof {
        lemma_typed_name_models(copies@, copies@.len() as int);
        lemma_typed_name_models(fields@, fields@.len() as int);
        assert(typed_name_models(copies@, copies@.len() as int) =~= typed_name_models(
            fields@,
            fields@.len() as int,
        ));
    }
    copies
}

impl SemanticAnalyzer {
    /// The variables that are known, as mathematical values.
    pub open spec fn variables(&self) -> Names {
        typed_name_models(self.environment.variables@, self.environment.variables@.len() as int)
    }

    /// The functions that are known, as mathematical values.
    pub open spec fn functions(&self) -> Functions {
        function_models(self.environment.functions@, self.environment.functions@.len() as int)
    }

    /// What has been found wrong, as texts.
    pub open spec fn found(&self) -> Seq<Seq<char>> {
        texts(self.errors@)
    }

    pub fn new() -> (analyzer: Self)
        ensures
            analyzer.errors@.len() == 0,
            analyzer.environment.variables@.len() == 0,
            analyzer.environment.functions@.len() == 0,
            analyzer.environment.structs@.len() == 0,
    {
        SemanticAnalyzer {
            environment: TypeEnvironment {
                variables: Vec::new(),
                functions: Vec::new(),
                structs: Vec::new(),
            },
            errors: Vec::new(),
        }
    }

    /// Checks a program.  Its functions are declared first.  The result
    /// is `Ok` exactly where nothing wrong has been found; else it holds
    /// what has been found, up to and in the first statement that is
    /// wrong.  An analyzer that has found something wrong before checks
    /// nothing more.
    pub fn analyze(&mut self, program: &Program) -> (r: Result<(), Vec<String>>)
        ensures
            final(self).functions() == declared(
                program@,
                program@.len() as int,
                old(self).functions(),
            ),
            final(self).found() == if old(self).errors@.len() > 0 {
                old(self).found()
            } else {
                checked_program(program@, 0, old(self).variables(), final(self).functions())
            },
            r is Ok <==> final(self).errors@.len() == 0,
            r is Err ==> texts(r->Err_0@) == final(self).found(),
    {
        self.collect_declarations(program);
        let ghost items = program@;
        let ghost functions = self.functions();
        proof {
            lemma_statement_models(program.statements@, program.statements@.len() as int);
        }
        let mut i: usize = 0;
        while i < program.statements.len() && self.errors.len() == 0
            invariant
                i <= program.statements@.len(),
                items == program@,
                items.len() == program.statements@.len(),
                forall|k: int|
                    0 <= k < items.len() ==> #[trigger] items[k] == program.statements@[k]@,
                self.functions() == functions,
                old(self).errors@.len() > 0 ==> self.errors == old(self).errors,
                old(self).errors@.len() == 0 ==> (if self.errors@.len() > 0 {
                    checked_program(items, 0, old(self).variables(), functions) == self.found()
                } else {
                    checked_program(items, 0, old(self).variables(), functions) == checked_program(
                        items,
                        i as int,
                        self.variables(),
                        functions,
                    )
                }),
            decreases program.statements@.len() - i,
        {
            let ghost before = self.found();
            self.analyze_statement(&program.statements[i]);
            proof {
                assert(before =~= Seq::<Seq<char>>::empty());
                let (after, errors) = checked(items[i as int], old(self).variables(), functions);
                assert(Seq::<Seq<char>>::empty() + checked(
                    items[i as int],
                    self.variables(),
                    functions,
                ).1 =~= checked(items[i as int], self.variables(), functions).1);
            }
            i += 1;
        }
        if self.errors.len() == 0 {
            proof {
                assert(self.found() =~= Seq::<Seq<char>>::empty());
            }
            Ok(())
        } else {
            Err(self.copy_errors())
        }
    }

    /// A copy of the errors.
    fn copy_errors(&self) -> (copies: Vec<String>)
        ensures
            texts(copies@) == self.found(),
    {
        let mut copies: Vec<String> = Vec::new();
        let mut i: usize = 0;
        while i < self.errors.len()
            invariant
                i <= self.errors@.len(),
                copies@.len() == i,
                forall|k: int| 0 <= k < i ==> #[trigger] copies@[k] == self.errors@[k],
            decreases self.errors@.len() - i,
        {
            copies.push(self.errors[i].clone());
            i += 1;
        }
        assert(texts(copies@) =~= texts(self.errors@));
        copies
    }

    /// Enters every function and struct that the program declares at its
    /// top.
    fn collect_declarations(&mut self, program: &Program)
        ensures
            final(self).errors == old(self).errors,
            final(self).environment.variables == old(self).environment.variables,
            final(self).functions() == declared(
                program@,
                program@.len() as int,
                old(self).functions(),
            ),
    {
        let ghost items = program@;
        proof {
            lemma_statement_models(program.statements@, program.statements@.len() as int);
        }
        let mut i: usize = 0;
        while i < program.statements.len()
            invariant
                i <= program.statements@.len(),
                items == program@,
                items.len() == program.statements@.len(),
                forall|k: int|
                    0 <= k < items.len() ==> #[trigger] items[k] == program.statements@[k]@,
                self.errors == old(self).errors,
                self.environment.variables == old(self).environment.variables,
                self.functions() == declared(items, i as int, old(self).functions()),
            decreases program.statements@.len() - i,
        {
            match &program.statements[i] {
                Statement::Function { name, params, return_type, body } => {
                    let result = match return_type {
                        Some(t) => Some(t.duplicate()),
                        None => None,
                    };
                    let entry = (
                        name.clone(),
                        FunctionType { params: duplicate_fields(params), return_type: result },
                    );
                    proof {
                        let grown = self.environment.functions@.push(entry);
                        lemma_function_models(
                            self.environment.functions@,
                            self.environment.functions@.len() as int,
                        );
                        lemma_function_models(grown, grown.len() as int);
                        assert(function_models(grown, grown.len() as int) =~= self.functions().push(
                            (entry.0@, entry.1@),
                        ));
                    }
                    self.environment.functions.push(entry);
                },
                Statement::Struct { name, fields } => {
                    self.environment.structs.push(
                        (name.clone(), StructType { fields: duplicate_fields(fields) }),
                    );
                },
                _ => {},
            }
            i += 1;
        }
    }

    /// Index of the last variable `name`.
    fn find_variable(&self, name: &String) -> (r: Option<usize>)
        ensures
            match r {
                Some(i) => i == last_named(self.variables(), name@) && i
                    < self.environment.variables@.len(),
                None => last_named(self.variables(), name@) == -1,
            },
    {
        let ghost models = self.variables();
        proof {
            lemma_typed_name_models(
                self.environment.variables@,
                self.environment.variables@.len() as int,
            );
        }
        let mut i: usize = self.environment.variables.len();
        assert(models.take(i as int) =~= models);
        while i > 0
            invariant
                i <= self.environment.variables@.len(),
                models == self.variables(),
                models.len() == self.environment.variables@.len(),
                forall|k: int|
                    0 <= k < models.len() ==> (#[trigger] models[k]).0
                        == self.environment.variables@[k].0@,
                last_named(models, name@) == last_named(models.take(i as int), name@),
            decreases i,
        {
            let ghost prefix = models.take(i as int);
            assert(prefix.last() == models[i - 1]);
            assert(prefix.drop_last() =~= models.take(i - 1));
            if self.environment.variables[i - 1].0 == *name {
                return Some(i - 1);
            }
            i -= 1;
        }
        None
    }

    /// Index of the last function `name`.
    fn find_function(&self, name: &String) -> (r: Option<usize>)
        ensures
            match r {
                Some(i) => i == last_named(self.functions(), name@) && i
                    < self.environment.functions@.len(),
                None => last_named(self.functions(), name@) == -1,
            },
    {
        let ghost models = self.functions();
        proof {
            lemma_function_models(
                self.environment.functions@,
                self.environment.functions@.len() as int,
            );
        }
        let mut i: usize = self.environment.functions.len();
        assert(models.take(i as int) =~= models);
        while i > 0
            invariant
                i <= self.environment.functions@.len(),
                models == self.functions(),
                models.len() == self.environment.functions@.len(),
                forall|k: int|
                    0 <= k < models.len() ==> (#[trigger] models[k]).0
                        == self.environment.functions@[k].0@,
                last_named(models, name@) == last_named(models.take(i as int), name@),
            decreases i,
        {
            let ghost prefix = models.take(i as int);
            assert(prefix.last() == models[i - 1]);
            assert(prefix.drop_last() =~= models.take(i - 1));
            if self.environment.functions[i - 1].0 == *name {
                return Some(i - 1);
            }
            i -= 1;
        }
        None
    }

    /// Keeps a message.
    fn report(&mut self, text: String)
        ensures
            final(self).environment == old(self).environment,
            final(self).found() == old(self).found() + seq![text@],
    {
        self.errors.push(text);
        assert(self.found() =~= old(self).found() + seq![text@]);
    }

    /// Keeps a message where `wrong`.
    fn report_if(&mut self, wrong: bool, text: String)
        ensures
            final(self).environment == old(self).environment,
            final(self).found() == old(self).found() + message_if(wrong, text@),
    {
        if wrong {
            self.report(text);
        } else {
            assert(self.found() + Seq::<Seq<char>>::empty() =~= self.found());
        }
    }

    /// Declares a variable.
    fn declare(&mut self, name: String, t: Type)
        ensures
            final(self).errors == old(self).errors,
            final(self).environment.functions == old(self).environment.functions,
            final(self).variables() == old(self).variables().push((name@, t@)),
    {
        proof {
            let grown = self.environment.variables@.push((name, t));
            lemma_typed_name_models(
                self.environment.variables@,
                self.environment.variables@.len() as int,
            );
            lemma_typed_name_models(grown, grown.len() as int);
            assert(typed_name_models(grown, grown.len() as int) =~= self.variables().push(
                (name@, t@),
            ));
        }
        self.environment.variables.push((name, t));
    }

    /// Checks the statements of a block in their order.
    fn analyze_block(&mut self, statements: &Vec<Statement>)
        ensures
            final(self).environment.functions == old(self).environment.functions,
            final(self).variables() == checked_block(
                statement_models(statements@, statements@.len() as int),
                0,
                old(self).variables(),
                old(self).functions(),
            ).0,
            final(self).found() == old(self).found() + checked_block(
                statement_models(statements@, statements@.len() as int),
                0,
                old(self).variables(),
                old(self).functions(),
            ).1,
        decreases statements, 1nat,
    {
        let ghost items = statement_models(statements@, statements@.len() as int);
        let ghost functions = self.functions();
        proof {
            lemma_statement_models(statements@, statements@.len() as int);
        }
        let mut i: usize = 0;
        assert(self.found() + checked_block(items, 0, self.variables(), functions).1 =~= old(self).found() + checked_block(items, 0, old(self).variables(), functions).1);
        while i < statements.len()
            invariant
                i <= statements@.len(),
                items == statement_models(statements@, statements@.len() as int),
                items.len() == statements@.len(),
                forall|k: int| 0 <= k < items.len() ==> #[trigger] items[k] == statements@[k]@,
                functions == old(self).functions(),
                self.environment.functions == old(self).environment.functions,
                checked_block(items, i as int, self.variables(), functions).0 == checked_block(
                    items,
                    0,
                    old(self).variables(),
                    functions,
                ).0,
                self.found() + checked_block(items, i as int, self.variables(), functions).1 == old(self).found() + checked_block(items, 0, old(self).variables(), functions).1,
            decreases statements@.len() - i,
        {
            let ghost before = self.found();
            let ghost known = self.variables();
            self.analyze_statement(&statements[i]);
            proof {
                let (after, errors) = checked(items[i as int], known, functions);
                let (end, rest) = checked_block(items, i + 1, after, functions);
                assert(before + (errors + rest) =~= (before + errors) + rest);
            }
            i += 1;
        }
        assert(self.found() + Seq::<Seq<char>>::empty() =~= self.found());
    }

    /// Checks one statement and keeps what it finds wrong.
    fn analyze_statement(&mut self, statement: &Statement)
        ensures
            final(self).environment.functions == old(self).environment.functions,
            final(self).variables() == checked(
                statement@,
                old(self).variables(),
                old(self).functions(),
            ).0,
            final(self).found() == old(self).found() + checked(
                statement@,
                old(self).variables(),
                old(self).functions(),
            ).1,
        decreases statement, 0nat,
    {
        let ghost start = self.found();
        let ghost variables = self.variables();
        let ghost functions = self.functions();
        match statement {
            Statement::Let { name, type_annotation, initializer } => {
                let found = match self.analyze_expression(initializer) {
                    Some(t) => t,
                    None => {
                        return ;
                    },
                };
                match type_annotation {
                    Some(annotated) => {
                        let wrong = !self.types_match(&found, annotated);
                        self.report_if(
                            wrong,
                            mismatch("Type mismatch: expected ", annotated, &found),
                        );
                    },
                    None => {
                        assert(self.found() + Seq::<Seq<char>>::empty() =~= self.found());
                    },
                }
                self.declare(name.clone(), found);
                assert(self.found() =~= start + checked(statement@, variables, functions).1);
            },
            Statement::Function { name, params, return_type, body } => {
                // The parameters and what the body declares are known in
                // the body only.
                let outer = duplicate_fields(&self.environment.variables);
                let mut i: usize = 0;
                let ghost given = typed_name_models(params@, params@.len() as int);
                proof {
                    lemma_typed_name_models(params@, params@.len() as int);
                    assert(variables + given.take(0) =~= variables);
                }
                while i < params.len()
                    invariant
                        i <= params@.len(),
                        given == typed_name_models(params@, params@.len() as int),
                        given.len() == params@.len(),
                        forall|k: int|
                            0 <= k < given.len() ==> #[trigger] given[k] == (
                                params@[k].0@,
                                params@[k].1@,
                            ),
                        self.errors == old(self).errors,
                        self.environment.functions == old(self).environment.functions,
                        self.variables() == variables + given.take(i as int),
                    decreases params@.len() - i,
                {
                    self.declare(params[i].0.clone(), params[i].1.duplicate());
                    assert((variables + given.take(i as int)).push(given[i as int]) =~= variables
                        + given.take(i as int + 1));
                    i += 1;
                }
                assert(given.take(given.len() as int) =~= given);
                self.analyze_block(body);
                self.environment.variables = outer;
            },
            Statement::Return(value) => {
                match value {
                    Some(e) => {
                        let _ = self.analyze_expression(e);
                    },
                    None => {
                        assert(self.found() + Seq::<Seq<char>>::empty() =~= self.found());
                    },
                }
            },
            Statement::Expression(e) => {
                let _ = self.analyze_expression(e);
            },
            Statement::If { condition, then_branch, else_branch } => {
                let is_bool = match self.analyze_expression(condition) {
                    Some(Type::Bool) => true,
                    Some(_) => false,
                    None => {
                        return ;
                    },
                };
                self.report_if(!is_bool, "If condition must be a boolean".to_owned());
                self.analyze_block(then_branch);
                match else_branch {
                    Some(statements) => {
                        self.analyze_block(statements);
                    },
                    None => {
                        assert(self.found() + Seq::<Seq<char>>::empty() =~= self.found());
                    },
                }
                assert(self.found() =~= start + checked(statement@, variables, functions).1);
            },
            Statement::While { condition, body } => {
                let is_bool = match self.analyze_expression(condition) {
                    Some(Type::Bool) => true,
                    Some(_) => false,
                    None => {
                        return ;
                    },
                };
                self.report_if(!is_bool, "While condition must be a boolean".to_owned());
                self.analyze_block(body);
                assert(self.found() =~= start + checked(statement@, variables, functions).1);
            },
            Statement::Struct { name, fields } => {
                assert(self.found() + Seq::<Seq<char>>::empty() =~= self.found());
            },
        }
    }

    /// The type of an expression.  `None` where it has none: then what is
    /// wrong has been kept.
    fn analyze_expression(&mut self, expression: &Expression) -> (r: Option<Type>)
        ensures
            final(self).environment == old(self).environment,
            match typed(expression@, old(self).variables(), old(self).functions()).0 {
                Some(t) => r is Some && r->0@ == t,
                None => r is None,
            },
            final(self).found() == old(self).found() + typed(
                expression@,
                old(self).variables(),
                old(self).functions(),
            ).1,
        decreases expression, 0nat,
    {
        let ghost start = self.found();
        let ghost variables = self.variables();
        let ghost functions = self.functions();
        let ghost none = Seq::<Seq<char>>::empty();
        assert(start + none =~= start);
        match expression {
            Expression::Integer(_) => Some(Type::Int),
            Expression::Float(_) => Some(Type::Float),
            Expression::String(_) => Some(Type::String),
            Expression::Boolean(_) => Some(Type::Bool),
            Expression::Identifier(name) => {
                match self.find_variable(name) {
                    Some(i) => {
                        proof {
                            lemma_typed_name_models(
                                self.environment.variables@,
                                self.environment.variables@.len() as int,
                            );
                        }
                        Some(self.environment.variables[i].1.duplicate())
                    },
                    None => {
                        let detail = chars_of(name.as_str());
                        self.report(message("Undefined variable: ", &detail));
                        None
                    },
                }
            },
            Expression::Binary { left, operator, right } => {
                let left_type = match self.analyze_expression(left) {
                    Some(t) => t,
                    None => {
                        return None;
                    },
                };
                let ghost left_errors = typed(expression_model(**left), variables, functions).1;
                let ghost right_errors = typed(expression_model(**right), variables, functions).1;
                let right_type = match self.analyze_expression(right) {
                    Some(t) => t,
                    None => {
                        assert(start + left_errors + right_errors =~= start + (left_errors
                            + right_errors));
                        return None;
                    },
                };
                let wrong = !self.types_match(&left_type, &right_type);
                self.report_if(
                    wrong,
                    mismatch("Binary operation type mismatch: ", &left_type, &right_type),
                );
                assert(self.found() =~= start + (left_errors + right_errors + message_if(
                    left_type@ != right_type@,
                    mismatch_text("Binary operation type mismatch: "@, left_type@, right_type@),
                )));
                if operator.is_comparison() {
                    Some(Type::Bool)
                } else {
                    Some(left_type)
                }
            },
            Expression::Call { function, arguments } => {
                let ghost callee = expression_model(**function);
                let ghost given = expression_models(arguments@, arguments@.len() as int);
                assert(expression@ == (ExpressionModel::Call {
                    function: Box::new(callee),
                    arguments: given,
                }));
                let name = match &**function {
                    Expression::Identifier(name) => {
                        assert(callee == ExpressionModel::Identifier(name@));
                        name
                    },
                    _ => {
                        assert(!(callee is Identifier));
                        self.report("Invalid function call".to_owned());
                        return None;
                    },
                };
                let index = match self.find_function(name) {
                    Some(i) => i,
                    None => {
                        let detail = chars_of(name.as_str());
                        self.report(message("Undefined function: ", &detail));
                        return None;
                    },
                };
                let ghost f = functions[index as int].1;
                proof {
                    lemma_function_models(
                        self.environment.functions@,
                        self.environment.functions@.len() as int,
                    );
                    lemma_expression_models(arguments@, arguments@.len() as int);
                    lemma_typed_name_models(
                        self.environment.functions@[index as int].1.params@,
                        self.environment.functions@[index as int].1.params@.len() as int,
                    );
                }
                let expected = self.environment.functions[index].1.params.len();
                self.report_if(arguments.len() != expected, wrong_count(expected, arguments.len()));
                let ghost counted = self.found();
                let mut i: usize = 0;
                while i < arguments.len() && i < expected
                    invariant
                        i <= arguments@.len(),
                        decreases_to!(expression => arguments),
                        self.environment == old(self).environment,
                        variables == old(self).variables(),
                        functions == old(self).functions(),
                        start == old(self).found(),
                        counted == start + message_if(
                            given.len() != f.params.len(),
                            count_text(f.params.len(), given.len()),
                        ),
                        expression@ == (ExpressionModel::Call {
                            function: Box::new(callee),
                            arguments: given,
                        }),
                        callee is Identifier,
                        last_named(functions, callee->Identifier_0) == index,
                        functions[index as int].1 == f,
                        index < functions.len(),
                        index < self.environment.functions@.len(),
                        expected == self.environment.functions@[index as int].1.params@.len(),
                        f == self.environment.functions@[index as int].1@,
                        f.params.len() == expected,
                        forall|k: int|
                            0 <= k < expected ==> (#[trigger] f.params[k]).1
                                == self.environment.functions@[index as int].1.params@[k].1@,
                        given == expression_models(arguments@, arguments@.len() as int),
                        given.len() == arguments@.len(),
                        forall|k: int|
                            0 <= k < given.len() ==> #[trigger] given[k] == arguments@[k]@,
                        typed_arguments(given, i as int, f.params, variables, functions).0
                            == typed_arguments(given, 0, f.params, variables, functions).0,
                        self.found() + typed_arguments(
                            given,
                            i as int,
                            f.params,
                            variables,
                            functions,
                        ).1 == counted + typed_arguments(given, 0, f.params, variables, functions).1,
                    decreases arguments@.len() - i,
                {
                    let ghost before = self.found();
                    let ghost here = typed(given[i as int], variables, functions);
                    let found = match self.analyze_expression(&arguments[i]) {
                        Some(t) => t,
                        None => {
                            proof {
                                let all = typed_arguments(given, 0, f.params, variables, functions);
                                assert(typed_arguments(
                                    given,
                                    i as int,
                                    f.params,
                                    variables,
                                    functions,
                                ) == (false, here.1));
                                assert(self.found() =~= start + (message_if(
                                    given.len() != f.params.len(),
                                    count_text(f.params.len(), given.len()),
                                ) + all.1));
                            }
                            return None;
                        },
                    };
                    let wanted = self.environment.functions[index].1.params[i].1.duplicate();
                    let wrong = !self.types_match(&found, &wanted);
                    self.report_if(
                        wrong,
                        mismatch("Argument type mismatch: expected ", &wanted, &found),
                    );
                    proof {
                        let own = message_if(
                            found@ != f.params[i as int].1,
                            mismatch_text(
                                "Argument type mismatch: expected "@,
                                f.params[i as int].1,
                                found@,
                            ),
                        );
                        let rest = typed_arguments(given, i + 1, f.params, variables, functions).1;
                        assert(before + (here.1 + own + rest) =~= (before + here.1 + own) + rest);
                    }
                    i += 1;
                }
                proof {
                    assert(self.found() + none =~= self.found());
                    let all = typed_arguments(given, 0, f.params, variables, functions);
                    assert(typed_arguments(given, i as int, f.params, variables, functions) == (
                        true,
                        none,
                    ));
                    assert(self.found() =~= start + (message_if(
                        given.len() != f.params.len(),
                        count_text(f.params.len(), given.len()),
                    ) + all.1));
                }
                match &self.environment.functions[index].1.return_type {
                    Some(t) => Some(t.duplicate()),
                    None => Some(Type::Int),
                }
            },
            _ => {
                self.report("Unsupported expression".to_owned());
                None
            },
        }
    }

    /// Whether two types are the same.
    pub fn types_match(&self, t1: &Type, t2: &Type) -> (r: bool)
        ensures
            r == same_type(*t1, *t2),
            r == (t1@ == t2@),
    {
        t1.matches(t2)
    }
}

} // verus!
