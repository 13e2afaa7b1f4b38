//! The syntax tree of the expression and statement language.
use vstd::prelude::*;

verus! {

/// A type of the language.
#[derive(Debug)]
pub enum Type {
    Int,
    Float,
    String,
    Bool,
    Custom(String),
    Array(Box<Type>),
    Function(Vec<Type>, Box<Type>),
}

/// An expression.  A float literal is kept as it was written.
#[derive(Debug)]
pub enum Expression {
    Integer(i64),
    Float(String),
    String(String),
    Boolean(bool),
    Identifier(String),
    Binary { left: Box<Expression>, operator: BinaryOp, right: Box<Expression> },
    Call { function: Box<Expression>, arguments: Vec<Expression> },
    ArrayLiteral(Vec<Expression>),
    StructLiteral { name: String, fields: Vec<(String, Expression)> },
}

/// A statement.
#[derive(Debug)]
pub enum Statement {
    Let { name: String, type_annotation: Option<Type>, initializer: Expression },
    Function {
        name: String,
        params: Vec<(String, Type)>,
        return_type: Option<Type>,
        body: Vec<Statement>,
    },
    Return(Option<Expression>),
    Expression(Expression),
    If { condition: Expression, then_branch: Vec<Statement>, else_branch: Option<Vec<Statement>> },
    While { condition: Expression, body: Vec<Statement> },
    Struct { name: String, fields: Vec<(String, Type)> },
}

/// A binary operator.
#[derive(Debug, Clone, Copy, PartialEq, Eq, Structural)]
pub enum BinaryOp {
    Add,
    Subtract,
    Multiply,
    Divide,
    Equal,
    NotEqual,
    Greater,
    Less,
    GreaterEqual,
    LessEqual,
}

/// The text of an operator.
pub open spec fn operator_text(op: BinaryOp) -> Seq<char> {
    match op {
        BinaryOp::Add => seq!['+'],
        BinaryOp::Subtract => seq!['-'],
        BinaryOp::Multiply => seq!['*'],
        BinaryOp::Divide => seq!['/'],
        BinaryOp::Equal => seq!['=', '='],
        BinaryOp::NotEqual => seq!['!', '='],
        BinaryOp::Greater => seq!['>'],
        BinaryOp::Less => seq!['<'],
        BinaryOp::GreaterEqual => seq!['>', '='],
        BinaryOp::LessEqual => seq!['<', '='],
    }
}

impl BinaryOp {
    /// Whether the operator compares its operands.
    pub open spec fn compares(self) -> bool {
        !(self == BinaryOp::Add || self == BinaryOp::Subtract || self == BinaryOp::Multiply || self
            == BinaryOp::Divide)
    }

    /// Whether the operator compares its operands.
    pub fn is_comparison(self) -> (r: bool)
        ensures
            r == self.compares(),
    {
        match self {
            BinaryOp::Add | BinaryOp::Subtract | BinaryOp::Multiply | BinaryOp::Divide => false,
            _ => true,
        }
    }

    /// Appends the text of the operator.
    pub fn push_symbol(self, out: &mut Vec<char>)
        ensures
            final(out)@ == old(out)@ + operator_text(self),
    {
        match self {
            BinaryOp::Add => {
                out.push('+');
            },
            BinaryOp::Subtract => {
                out.push('-');
            },
            BinaryOp::Multiply => {
                out.push('*');
            },
            BinaryOp::Divide => {
                out.push('/');
            },
            BinaryOp::Equal => {
                out.push('=');
                out.push('=');
            },
            BinaryOp::NotEqual => {
                out.push('!');
                out.push('=');
            },
            BinaryOp::Greater => {
                out.push('>');
            },
            BinaryOp::Less => {
                out.push('<');
            },
            BinaryOp::GreaterEqual => {
                out.push('>');
                out.push('=');
            },
            BinaryOp::LessEqual => {
                out.push('<');
                out.push('=');
            },
        }
    }

    /// The text of the operator.
    pub fn symbol(self) -> (text: String)
        ensures
            text@ == operator_text(self),
    {
        let mut out: Vec<char> = Vec::new();
        self.push_symbol(&mut out);
        crate::text::string_from_chars(&out)
    }
}

/// Whether two types are the same: the same shape, with the same names.
pub open spec fn same_type(a: Type, b: Type) -> bool
    decreases a,
{
    match (a, b) {
        (Type::Int, Type::Int) => true,
        (Type::Float, Type::Float) => true,
        (Type::String, Type::String) => true,
        (Type::Bool, Type::Bool) => true,
        (Type::Custom(x), Type::Custom(y)) => x@ == y@,
        (Type::Array(x), Type::Array(y)) => same_type(*x, *y),
        (Type::Function(p, r), Type::Function(q, s)) => p@.len() == q@.len() && same_types(
            p@,
            q@,
            0,
        ) && same_type(*r, *s),
        _ => false,
    }
}

/// Whether two lists of types agree, one by one, from index `from` on for
/// as far as the first list goes.
pub open spec fn same_types(a: Seq<Type>, b: Seq<Type>, from: int) -> bool
    decreases a, a.len() - from,
{
    if 0 <= from < a.len() {
        from < b.len() && same_type(a[from], b[from]) && same_types(a, b, from + 1)
    } else {
        true
    }
}

/// Lists of equal length that agree at every index agree from any index
/// on.
pub proof fn lemma_same_types_pointwise(a: Seq<Type>, b: Seq<Type>, from: int)
    requires
        a.len() == b.len(),
        forall|i: int| 0 <= i < a.len() ==> same_type(#[trigger] a[i], b[i]),
    ensures
        same_types(a, b, from),
    decreases a.len() - from,
{
    if 0 <= from < a.len() {
        lemma_same_types_pointwise(a, b, from + 1);
    }
}

/// The text of a type, as error messages show it.
pub open spec fn type_text(t: TypeModel) -> Seq<char>
    decreases t,
{
    match t {
        TypeModel::Int => "i32"@,
        TypeModel::Float => "f64"@,
        TypeModel::String => "string"@,
        TypeModel::Bool => "bool"@,
        TypeModel::Custom(name) => name,
        TypeModel::Array(inner) => seq!['['] + type_text(*inner) + seq![']'],
        TypeModel::Function(params, result) => "fn"@,
    }
}

impl Type {
    /// A copy of the type.
    pub fn duplicate(&self) -> (copy: Type)
        ensures
            same_type(copy, *self),
            same_type(*self, copy),
            copy@ == self@,
        decreases self,
    {
        let copy = match self {
            Type::Int => Type::Int,
            Type::Float => Type::Float,
            Type::String => Type::String,
            Type::Bool => Type::Bool,
            Type::Custom(name) => Type::Custom(name.clone()),
            Type::Array(inner) => Type::Array(Box::new(inner.duplicate())),
            Type::Function(params, result) => {
                let mut copies: Vec<Type> = Vec::new();
                let mut i: usize = 0;
                while i < params.len()
                    invariant
                        i <= params@.len(),
                        decreases_to!(self => params),
                        copies@.len() == i,
                        forall|k: int|
                            0 <= k < i ==> same_type(#[trigger] copies@[k], params@[k])
                                && same_type(params@[k], copies@[k]),
                    decreases params@.len() - i,
                {
                    copies.push(params[i].duplicate());
                    i += 1;
                }
                let copied = result.duplicate();
                proof {
                    lemma_same_types_pointwise(copies@, params@, 0);
                    lemma_same_types_pointwise(params@, copies@, 0);
                }
                Type::Function(copies, Box::new(copied))
            },
        };
        proof {
            lemma_same_type_is_equal_model(copy, *self);
        }
        copy
    }

    /// Appends the text of the type.
    pub fn push_text(&self, out: &mut Vec<char>)
        ensures
            final(out)@ == old(out)@ + type_text(self@),
        decreases self,
    {
        match self {
            Type::Int => {
                let text = crate::text::chars_of("i32");
                crate::text::push_all(out, &text);
            },
            Type::Float => {
                let text = crate::text::chars_of("f64");
                crate::text::push_all(out, &text);
            },
            Type::String => {
                let text = crate::text::chars_of("string");
                crate::text::push_all(out, &text);
            },
            Type::Bool => {
                let text = crate::text::chars_of("bool");
                crate::text::push_all(out, &text);
            },
            Type::Custom(name) => {
                let text = crate::text::chars_of(name.as_str());
                crate::text::push_all(out, &text);
            },
            Type::Array(inner) => {
                out.push('[');
                inner.push_text(out);
                out.push(']');
                assert(out@ =~= old(out)@ + type_text(self@));
            },
            Type::Function(params, result) => {
                let text = crate::text::chars_of("fn");
                crate::text::push_all(out, &text);
            },
        }
    }

    /// Whether this type and `other` are the same.
    pub fn matches(&self, other: &Type) -> (r: bool)
        ensures
            r == same_type(*self, *other),
            r == (self@ == other@),
        decreases self, 0nat,
    {
        proof {
            lemma_same_type_is_equal_model(*self, *other);
        }
        match (self, other) {
            (Type::Int, Type::Int) => true,
            (Type::Float, Type::Float) => true,
            (Type::String, Type::String) => true,
            (Type::Bool, Type::Bool) => true,
            (Type::Custom(x), Type::Custom(y)) => *x == *y,
            (Type::Array(x), Type::Array(y)) => x.matches(y),
            (Type::Function(p, r), Type::Function(q, s)) => {
                p.len() == q.len() && Type::all_match(p, q, 0) && r.matches(s)
            },
            _ => false,
        }
    }

    /// Whether two lists of types agree from index `from` on.
    pub fn all_match(a: &Vec<Type>, b: &Vec<Type>, from: usize) -> (r: bool)
        ensures
            r == same_types(a@, b@, from as int),
        decreases a, a@.len() - from,
    {
        if from < a.len() {
            from < b.len() && a[from].matches(&b[from]) && Type::all_match(a, b, from + 1)
        } else {
            true
        }
    }
}

/// A whole source text, parsed.
#[derive(Debug)]
pub struct Program {
    pub statements: Vec<Statement>,
}

} // verus!

verus! {

/// A type, as a mathematical value.
pub enum TypeModel {
    Int,
    Float,
    String,
    Bool,
    Custom(Seq<char>),
    Array(Box<TypeModel>),
    Function(Seq<TypeModel>, Box<TypeModel>),
}

/// An expression, as a mathematical value.
pub enum ExpressionModel {
    Integer(i64),
    Float(Seq<char>),
    String(Seq<char>),
    Boolean(bool),
    Identifier(Seq<char>),
    Binary { left: Box<ExpressionModel>, operator: BinaryOp, right: Box<ExpressionModel> },
    Call { function: Box<ExpressionModel>, arguments: Seq<ExpressionModel> },
    ArrayLiteral(Seq<ExpressionModel>),
    StructLiteral { name: Seq<char>, fields: Seq<(Seq<char>, ExpressionModel)> },
}

/// A statement, as a mathematical value.
pub enum StatementModel {
    Let { name: Seq<char>, type_annotation: Option<TypeModel>, initializer: ExpressionModel },
    Function {
        name: Seq<char>,
        params: Seq<(Seq<char>, TypeModel)>,
        return_type: Option<TypeModel>,
        body: Seq<StatementModel>,
    },
    Return(Option<ExpressionModel>),
    Expression(ExpressionModel),
    If {
        condition: ExpressionModel,
        then_branch: Seq<StatementModel>,
        else_branch: Option<Seq<StatementModel>>,
    },
    While { condition: ExpressionModel, body: Seq<StatementModel> },
    Struct { name: Seq<char>, fields: Seq<(Seq<char>, TypeModel)> },
}

/// The mathematical value of a type.
pub open spec fn type_model(t: Type) -> TypeModel
    decreases t, 0nat,
{
    match t {
        Type::Int => TypeModel::Int,
        Type::Float => TypeModel::Float,
        Type::String => TypeModel::String,
        Type::Bool => TypeModel::Bool,
        Type::Custom(name) => TypeModel::Custom(name@),
        Type::Array(inner) => TypeModel::Array(Box::new(type_model(*inner))),
        Type::Function(params, result) => TypeModel::Function(
            type_models(params@, params@.len() as int),
            Box::new(type_model(*result)),
        ),
    }
}

/// The mathematical values of the first `n` of some types.
pub open spec fn type_models(items: Seq<Type>, n: int) -> Seq<TypeModel>
    decreases items, n,
{
    if 0 < n <= items.len() {
        type_models(items, n - 1).push(type_model(items[n - 1]))
    } else {
        Seq::<TypeModel>::empty()
    }
}

/// The mathematical value of an optional type.
pub open spec fn optional_type_model(t: Option<Type>) -> Option<TypeModel> {
    match t {
        Some(ty) => Some(type_model(ty)),
        None => None,
    }
}

/// The mathematical values of the first `n` of some names with types.
pub open spec fn typed_name_models(items: Seq<(String, Type)>, n: int) -> Seq<(Seq<char>, TypeModel)>
    decreases n,
{
    if 0 < n <= items.len() {
        typed_name_models(items, n - 1).push((items[n - 1].0@, type_model(items[n - 1].1)))
    } else {
        Seq::<(Seq<char>, TypeModel)>::empty()
    }
}

/// The mathematical value of an expression.
pub open spec fn expression_model(e: Expression) -> ExpressionModel
    decreases e, 0nat,
{
    match e {
        Expression::Integer(n) => ExpressionModel::Integer(n),
        Expression::Float(text) => ExpressionModel::Float(text@),
        Expression::String(text) => ExpressionModel::String(text@),
        Expression::Boolean(b) => ExpressionModel::Boolean(b),
        Expression::Identifier(name) => ExpressionModel::Identifier(name@),
        Expression::Binary { left, operator, right } => ExpressionModel::Binary {
            left: Box::new(expression_model(*left)),
            operator,
            right: Box::new(expression_model(*right)),
        },
        Expression::Call { function, arguments } => ExpressionModel::Call {
            function: Box::new(expression_model(*function)),
            arguments: expression_models(arguments@, arguments@.len() as int),
        },
        Expression::ArrayLiteral(elements) => ExpressionModel::ArrayLiteral(
            expression_models(elements@, elements@.len() as int),
        ),
        Expression::StructLiteral { name, fields } => ExpressionModel::StructLiteral {
            name: name@,
            fields: field_models(fields@, fields@.len() as int),
        },
    }
}

/// The mathematical values of the first `n` of some expressions.
pub open spec fn expression_models(items: Seq<Expression>, n: int) -> Seq<ExpressionModel>
    decreases items, n,
{
    if 0 < n <= items.len() {
        expression_models(items, n - 1).push(expression_model(items[n - 1]))
    } else {
        Seq::<ExpressionModel>::empty()
    }
}

/// The mathematical values of the first `n` fields of a struct literal.
pub open spec fn field_models(items: Seq<(String, Expression)>, n: int) -> Seq<
    (Seq<char>, ExpressionModel),
>
    decreases items, n,
{
    if 0 < n <= items.len() {
        field_models(items, n - 1).push((items[n - 1].0@, expression_model(items[n - 1].1)))
    } else {
        Seq::<(Seq<char>, ExpressionModel)>::empty()
    }
}

/// The mathematical value of an optional expression.
pub open spec fn optional_expression_model(e: Option<Expression>) -> Option<ExpressionModel> {
    match e {
        Some(x) => Some(expression_model(x)),
        None => None,
    }
}

/// The mathematical value of a statement.
pub open spec fn statement_model(s: Statement) -> StatementModel
    decreases s, 0nat,
{
    match s {
        Statement::Let { name, type_annotation, initializer } => StatementModel::Let {
            name: name@,
            type_annotation: optional_type_model(type_annotation),
            initializer: expression_model(initializer),
        },
        Statement::Function { name, params, return_type, body } => StatementModel::Function {
            name: name@,
            params: typed_name_models(params@, params@.len() as int),
            return_type: optional_type_model(return_type),
            body: statement_models(body@, body@.len() as int),
        },
        Statement::Return(value) => StatementModel::Return(optional_expression_model(value)),
        Statement::Expression(e) => StatementModel::Expression(expression_model(e)),
        Statement::If { condition, then_branch, else_branch } => StatementModel::If {
            condition: expression_model(condition),
            then_branch: statement_models(then_branch@, then_branch@.len() as int),
            else_branch: match else_branch {
                Some(statements) => Some(statement_models(statements@, statements@.len() as int)),
                None => None,
            },
        },
        Statement::While { condition, body } => StatementModel::While {
            condition: expression_model(condition),
            body: statement_models(body@, body@.len() as int),
        },
        Statement::Struct { name, fields } => StatementModel::Struct {
            name: name@,
            fields: typed_name_models(fields@, fields@.len() as int),
        },
    }
}

/// The mathematical values of the first `n` of some statements.
pub open spec fn statement_models(items: Seq<Statement>, n: int) -> Seq<StatementModel>
    decreases items, n,
{
    if 0 < n <= items.len() {
        statement_models(items, n - 1).push(statement_model(items[n - 1]))
    } else {
        Seq::<StatementModel>::empty()
    }
}

impl View for Type {
    type V = TypeModel;

    open spec fn view(&self) -> TypeModel {
        type_model(*self)
    }
}

impl View for Expression {
    type V = ExpressionModel;

    open spec fn view(&self) -> ExpressionModel {
        expression_model(*self)
    }
}

impl View for Statement {
    type V = StatementModel;

    open spec fn view(&self) -> StatementModel {
        statement_model(*self)
    }
}

impl View for Program {
    type V = Seq<StatementModel>;

    open spec fn view(&self) -> Seq<StatementModel> {
        statement_models(self.statements@, self.statements@.len() as int)
    }
}

/// `expression_models` has one value for each of the first `n` items.
pub proof fn lemma_expression_models(items: Seq<Expression>, n: int)
    requires
        0 <= n <= items.len(),
    ensures
        expression_models(items, n).len() == n,
        forall|i: int|
            0 <= i < n ==> #[trigger] expression_models(items, n)[i] == expression_model(items[i]),
    decreases n,
{
    if n > 0 {
        lemma_expression_models(items, n - 1);
    }
}

/// `field_models` has one value for each of the first `n` fields.
pub proof fn lemma_field_models(items: Seq<(String, Expression)>, n: int)
    requires
        0 <= n <= items.len(),
    ensures
        field_models(items, n).len() == n,
        forall|i: int|
            0 <= i < n ==> #[trigger] field_models(items, n)[i] == (
                items[i].0@,
                expression_model(items[i].1),
            ),
    decreases n,
{
    if n > 0 {
        lemma_field_models(items, n - 1);
    }
}

/// `statement_models` has one value for each of the first `n` items.
pub proof fn lemma_statement_models(items: Seq<Statement>, n: int)
    requires
        0 <= n <= items.len(),
    ensures
        statement_models(items, n).len() == n,
        forall|i: int|
            0 <= i < n ==> #[trigger] statement_models(items, n)[i] == statement_model(items[i]),
    decreases n,
{
    if n > 0 {
        lemma_statement_models(items, n - 1);
    }
}

/// `typed_name_models` has one value for each of the first `n` items.
pub proof fn lemma_typed_name_models(items: Seq<(String, Type)>, n: int)
    requires
        0 <= n <= items.len(),
    ensures
        typed_name_models(items, n).len() == n,
        forall|i: int|
            0 <= i < n ==> #[trigger] typed_name_models(items, n)[i] == (
                items[i].0@,
                type_model(items[i].1),
            ),
    decreases n,
{
    if n > 0 {
        lemma_typed_name_models(items, n - 1);
    }
}

/// `type_models` has one value for each of the first `n` items.
pub proof fn lemma_type_models(items: Seq<Type>, n: int)
    requires
        0 <= n <= items.len(),
    ensures
        type_models(items, n).len() == n,
        forall|i: int| 0 <= i < n ==> #[trigger] type_models(items, n)[i] == type_model(items[i]),
    decreases n,
{
    if n > 0 {
        lemma_type_models(items, n - 1);
    }
}

} // verus!

verus! {

/// Lists of types agree from an index on exactly where the mathematical
/// values of their items from that index on are the same.
pub proof fn lemma_same_types_are_equal_models(a: Seq<Type>, b: Seq<Type>, from: int)
    requires
        a.len() == b.len(),
        0 <= from <= a.len(),
    ensures
        same_types(a, b, from) <==> forall|i: int|
            from <= i < a.len() ==> type_model(#[trigger] a[i]) == type_model(b[i]),
    decreases a, a.len() - from,
{
    if from < a.len() {
        lemma_same_type_is_equal_model(a[from], b[from]);
        lemma_same_types_are_equal_models(a, b, from + 1);
    }
}

/// Two types are the same exactly where their mathematical values are.
pub proof fn lemma_same_type_is_equal_model(a: Type, b: Type)
    ensures
        same_type(a, b) <==> type_model(a) == type_model(b),
    decreases a, 0nat,
{
    match (a, b) {
        (Type::Array(x), Type::Array(y)) => {
            lemma_same_type_is_equal_model(*x, *y);
        },
        (Type::Function(p, r), Type::Function(q, s)) => {
            lemma_same_type_is_equal_model(*r, *s);
            lemma_type_models(p@, p@.len() as int);
            lemma_type_models(q@, q@.len() as int);
            let pm = type_models(p@, p@.len() as int);
            let qm = type_models(q@, q@.len() as int);
            if p@.len() == q@.len() {
                lemma_same_types_are_equal_models(p@, q@, 0);
                if same_types(p@, q@, 0) {
                    assert(pm =~= qm);
                }
                if pm == qm {
                    assert forall|i: int| 0 <= i < p@.len() implies type_model(#[trigger] p@[i])
                        == type_model(q@[i]) by {
                        assert(pm[i] == qm[i]);
                    }
                }
            } else {
                assert(pm.len() != qm.len());
            }
        },
        _ => {},
    }
}

} // verus!
