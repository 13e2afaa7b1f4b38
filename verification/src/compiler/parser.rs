//! Recursive-descent parser from tokens to the syntax tree.
use crate::compiler::ast::{
    expression_models, lemma_expression_models, lemma_statement_models, lemma_typed_name_models,
    statement_models, typed_name_models, BinaryOp, Expression, ExpressionModel, Program,
    Statement, StatementModel, Type, TypeModel,
};
use crate::compiler::lexer::{kinds, spells, token_stream, Token, TokenModel, TokenType};
use crate::text::chars_of;
use vstd::prelude::*;

verus! {

/// Whether a string spells `word`.
pub fn text_is(s: &String, word: &str) -> (r: bool)
    ensures
        r == (s@ == word@),
{
    let chars = chars_of(s.as_str());
    spells(&chars, word)
}

/// Whether no token is left at `pos`, or the token there is `EOF`.
pub open spec fn at_end(ts: Seq<TokenModel>, pos: int) -> bool {
    pos >= ts.len() || ts[pos] is EOF
}

/// The type that a name stands for.
pub open spec fn named_type(name: Seq<char>) -> TypeModel {
    if name == "i32"@ {
        TypeModel::Int
    } else if name == "f64"@ {
        TypeModel::Float
    } else if name == "string"@ {
        TypeModel::String
    } else if name == "bool"@ {
        TypeModel::Bool
    } else {
        TypeModel::Custom(name)
    }
}

/// The type at `pos`: the name of a type.
pub open spec fn type_at(ts: Seq<TokenModel>, pos: int) -> Option<(TypeModel, int)> {
    if 0 <= pos < ts.len() && ts[pos] is Identifier {
        Some((named_type(ts[pos]->Identifier_0), pos + 1))
    } else {
        None
    }
}

/// The binary operator that a token is.
pub open spec fn operator_of(t: TokenModel) -> Option<BinaryOp> {
    match t {
        TokenModel::Plus => Some(BinaryOp::Add),
        TokenModel::Minus => Some(BinaryOp::Subtract),
        TokenModel::Multiply => Some(BinaryOp::Multiply),
        TokenModel::Divide => Some(BinaryOp::Divide),
        TokenModel::Equal => Some(BinaryOp::Equal),
        TokenModel::NotEqual => Some(BinaryOp::NotEqual),
        TokenModel::Greater => Some(BinaryOp::Greater),
        TokenModel::Less => Some(BinaryOp::Less),
        TokenModel::GreaterEqual => Some(BinaryOp::GreaterEqual),
        TokenModel::LessEqual => Some(BinaryOp::LessEqual),
        _ => None,
    }
}

/// The position after an optional token: after the token at `pos` where
/// `present`, else `pos`.
pub open spec fn after_optional(present: bool, pos: int) -> int {
    if present {
        pos + 1
    } else {
        pos
    }
}

/// Whether the token at `pos` is a comma.
pub open spec fn comma_at(ts: Seq<TokenModel>, pos: int) -> bool {
    0 <= pos < ts.len() && ts[pos] is Comma
}

/// Whether the token at `pos` is a semicolon.
pub open spec fn semicolon_at(ts: Seq<TokenModel>, pos: int) -> bool {
    0 <= pos < ts.len() && ts[pos] is Semicolon
}

/// A literal, a name, a call, or an expression in parentheses, at `pos`.
pub open spec fn primary(ts: Seq<TokenModel>, pos: int) -> Option<(ExpressionModel, int)>
    decreases ts.len() - pos, 1nat,
{
    if pos < 0 || at_end(ts, pos) {
        None
    } else {
        match ts[pos] {
            TokenModel::Integer(n) => Some((ExpressionModel::Integer(n), pos + 1)),
            TokenModel::Float(text) => Some((ExpressionModel::Float(text), pos + 1)),
            TokenModel::String(text) => Some((ExpressionModel::String(text), pos + 1)),
            TokenModel::Identifier(name) => if pos + 1 < ts.len() && ts[pos + 1] is LeftParen {
                match arguments(ts, pos + 2) {
                    Some((list, next)) => Some(
                        (
                            ExpressionModel::Call {
                                function: Box::new(ExpressionModel::Identifier(name)),
                                arguments: list,
                            },
                            next,
                        ),
                    ),
                    None => None,
                }
            } else if name == "true"@ {
                Some((ExpressionModel::Boolean(true), pos + 1))
            } else if name == "false"@ {
                Some((ExpressionModel::Boolean(false), pos + 1))
            } else {
                Some((ExpressionModel::Identifier(name), pos + 1))
            },
            TokenModel::LeftParen => match expression(ts, pos + 1) {
                Some((inner, next)) => if 0 <= next < ts.len() && ts[next] is RightParen {
                    Some((inner, next + 1))
                } else {
                    None
                },
                None => None,
            },
            _ => None,
        }
    }
}

/// The arguments of a call from `pos` on, up to and with the closing
/// parenthesis: expressions, each followed by an optional comma.
pub open spec fn arguments(ts: Seq<TokenModel>, pos: int) -> Option<(Seq<ExpressionModel>, int)>
    decreases ts.len() - pos, 3nat,
{
    if pos < 0 {
        None
    } else if pos < ts.len() && ts[pos] is RightParen {
        Some((Seq::<ExpressionModel>::empty(), pos + 1))
    } else if at_end(ts, pos) {
        None
    } else {
        match expression(ts, pos) {
            Some((first, next)) => {
                let after = after_optional(comma_at(ts, next), next);
                if pos < after <= ts.len() {
                    match arguments(ts, after) {
                        Some((rest, end)) => Some((seq![first] + rest, end)),
                        None => None,
                    }
                } else {
                    None
                }
            },
            None => None,
        }
    }
}

/// What follows an operand that ends before `pos`: operators with their
/// right operands, grouped from the left with `left`.
pub open spec fn binary_rest(ts: Seq<TokenModel>, pos: int, left: ExpressionModel) -> Option<
    (ExpressionModel, int),
>
    decreases ts.len() - pos, 0nat,
{
    if !(0 <= pos < ts.len()) {
        Some((left, pos))
    } else {
        match operator_of(ts[pos]) {
            None => Some((left, pos)),
            Some(operator) => match primary(ts, pos + 1) {
                Some((right, next)) => if pos < next <= ts.len() {
                    binary_rest(
                        ts,
                        next,
                        ExpressionModel::Binary {
                            left: Box::new(left),
                            operator,
                            right: Box::new(right),
                        },
                    )
                } else {
                    None
                },
                None => None,
            },
        }
    }
}

/// The expression at `pos`: operands joined by operators, grouped from
/// the left.
pub open spec fn expression(ts: Seq<TokenModel>, pos: int) -> Option<(ExpressionModel, int)>
    decreases ts.len() - pos, 2nat,
{
    match primary(ts, pos) {
        Some((first, next)) => if pos < next <= ts.len() {
            binary_rest(ts, next, first)
        } else {
            None
        },
        None => None,
    }
}

/// Whether a token closes a list of names with types.
pub open spec fn closes(t: TokenModel, in_parens: bool) -> bool {
    if in_parens {
        t is RightParen
    } else {
        t is RightBrace
    }
}

/// Names with their types from `pos` on, up to and with the closing
/// token: each a name, a colon and a type, followed by an optional comma.
pub open spec fn fields(ts: Seq<TokenModel>, pos: int, in_parens: bool) -> Option<
    (Seq<(Seq<char>, TypeModel)>, int),
>
    decreases ts.len() - pos,
{
    if pos < 0 || pos >= ts.len() {
        None
    } else if closes(ts[pos], in_parens) {
        Some((Seq::<(Seq<char>, TypeModel)>::empty(), pos + 1))
    } else if ts[pos] is Identifier && pos + 1 < ts.len() && ts[pos + 1] is Colon {
        match type_at(ts, pos + 2) {
            Some((t, next)) => match fields(
                ts,
                after_optional(comma_at(ts, next), next),
                in_parens,
            ) {
                Some((rest, end)) => Some((seq![(ts[pos]->Identifier_0, t)] + rest, end)),
                None => None,
            },
            None => None,
        }
    } else {
        None
    }
}

/// An optional type after the token `lead` at `pos`: the type and the
/// position after it; no type and `pos` where the token is not there;
/// `None` where the token is there and no type follows it.
pub open spec fn annotation(ts: Seq<TokenModel>, pos: int, colon: bool) -> Option<
    (Option<TypeModel>, int),
> {
    if 0 <= pos < ts.len() && (if colon {
        ts[pos] is Colon
    } else {
        ts[pos] is Arrow
    }) {
        match type_at(ts, pos + 1) {
            Some((t, next)) => Some((Some(t), next)),
            None => None,
        }
    } else {
        Some((None, pos))
    }
}

/// The `let` statement at `pos`.
pub open spec fn let_statement(ts: Seq<TokenModel>, pos: int) -> Option<(StatementModel, int)> {
    if !(0 <= pos && pos + 1 < ts.len() && ts[pos] is Let && ts[pos + 1] is Identifier) {
        None
    } else {
        match annotation(ts, pos + 2, true) {
            Some((type_annotation, assign)) => if 0 <= assign < ts.len() && ts[assign] is Assign {
                match expression(ts, assign + 1) {
                    Some((initializer, end)) => if semicolon_at(ts, end) {
                        Some(
                            (
                                StatementModel::Let {
                                    name: ts[pos + 1]->Identifier_0,
                                    type_annotation,
                                    initializer,
                                },
                                end + 1,
                            ),
                        )
                    } else {
                        None
                    },
                    None => None,
                }
            } else {
                None
            },
            None => None,
        }
    }
}

/// The `return` statement at `pos`.
pub open spec fn return_statement(ts: Seq<TokenModel>, pos: int) -> Option<(StatementModel, int)> {
    if !(0 <= pos < ts.len() && ts[pos] is Return) {
        None
    } else if semicolon_at(ts, pos + 1) {
        Some((StatementModel::Return(None), pos + 2))
    } else {
        match expression(ts, pos + 1) {
            Some((value, end)) => if semicolon_at(ts, end) {
                Some((StatementModel::Return(Some(value)), end + 1))
            } else {
                None
            },
            None => None,
        }
    }
}

/// The declaration of a struct at `pos`.
pub open spec fn struct_declaration(ts: Seq<TokenModel>, pos: int) -> Option<(StatementModel, int)> {
    if !(0 <= pos && pos + 2 < ts.len() && ts[pos] is Struct && ts[pos + 1] is Identifier && ts[pos
        + 2] is LeftBrace) {
        None
    } else {
        match fields(ts, pos + 3, false) {
            Some((list, end)) => Some(
                (StatementModel::Struct { name: ts[pos + 1]->Identifier_0, fields: list }, end),
            ),
            None => None,
        }
    }
}

/// The function at `pos`.
pub open spec fn function(ts: Seq<TokenModel>, pos: int) -> Option<(StatementModel, int)>
    decreases ts.len() - pos, 4nat,
{
    if !(0 <= pos && pos + 2 < ts.len() && ts[pos] is Fn && ts[pos + 1] is Identifier && ts[pos
        + 2] is LeftParen) {
        None
    } else {
        match fields(ts, pos + 3, true) {
            Some((params, after_params)) => match annotation(ts, after_params, false) {
                Some((return_type, start)) => if pos < start <= ts.len() {
                    match block(ts, start) {
                        Some((body, end)) => Some(
                            (
                                StatementModel::Function {
                                    name: ts[pos + 1]->Identifier_0,
                                    params,
                                    return_type,
                                    body,
                                },
                                end,
                            ),
                        ),
                        None => None,
                    }
                } else {
                    None
                },
                None => None,
            },
            None => None,
        }
    }
}

/// The `if` statement at `pos`.
pub open spec fn if_statement(ts: Seq<TokenModel>, pos: int) -> Option<(StatementModel, int)>
    decreases ts.len() - pos, 4nat,
{
    if !(0 <= pos < ts.len() && ts[pos] is If) {
        None
    } else {
        match expression(ts, pos + 1) {
            Some((condition, start)) => if pos < start <= ts.len() {
                match block(ts, start) {
                    Some((then_branch, next)) => if 0 <= next < ts.len() && ts[next] is Else {
                        if pos < next {
                            match block(ts, next + 1) {
                                Some((statements, end)) => Some(
                                    (
                                        StatementModel::If {
                                            condition,
                                            then_branch,
                                            else_branch: Some(statements),
                                        },
                                        end,
                                    ),
                                ),
                                None => None,
                            }
                        } else {
                            None
                        }
                    } else {
                        Some(
                            (StatementModel::If { condition, then_branch, else_branch: None }, next),
                        )
                    },
                    None => None,
                }
            } else {
                None
            },
            None => None,
        }
    }
}

/// The `while` statement at `pos`.
pub open spec fn while_statement(ts: Seq<TokenModel>, pos: int) -> Option<(StatementModel, int)>
    decreases ts.len() - pos, 4nat,
{
    if !(0 <= pos < ts.len() && ts[pos] is While) {
        None
    } else {
        match expression(ts, pos + 1) {
            Some((condition, start)) => if pos < start <= ts.len() {
                match block(ts, start) {
                    Some((body, end)) => Some((StatementModel::While { condition, body }, end)),
                    None => None,
                }
            } else {
                None
            },
            None => None,
        }
    }
}

/// The block at `pos`: statements between braces.
pub open spec fn block(ts: Seq<TokenModel>, pos: int) -> Option<(Seq<StatementModel>, int)>
    decreases ts.len() - pos, 7nat,
{
    if 0 <= pos < ts.len() && ts[pos] is LeftBrace {
        block_rest(ts, pos + 1)
    } else {
        None
    }
}

/// The statements of a block from `pos` on, up to and with the closing
/// brace.
pub open spec fn block_rest(ts: Seq<TokenModel>, pos: int) -> Option<(Seq<StatementModel>, int)>
    decreases ts.len() - pos, 6nat,
{
    if pos < 0 {
        None
    } else if pos < ts.len() && ts[pos] is RightBrace {
        Some((Seq::<StatementModel>::empty(), pos + 1))
    } else {
        match statement(ts, pos) {
            Some((first, next)) => if pos < next <= ts.len() {
                match block_rest(ts, next) {
                    Some((rest, end)) => Some((seq![first] + rest, end)),
                    None => None,
                }
            } else {
                None
            },
            None => None,
        }
    }
}

/// The statement at `pos`.  A statement that starts with no keyword is
/// an expression, followed by an optional semicolon.
pub open spec fn statement(ts: Seq<TokenModel>, pos: int) -> Option<(StatementModel, int)>
    decreases ts.len() - pos, 5nat,
{
    if pos < 0 || at_end(ts, pos) {
        None
    } else {
        match ts[pos] {
            TokenModel::Let => let_statement(ts, pos),
            TokenModel::Fn => function(ts, pos),
            TokenModel::Return => return_statement(ts, pos),
            TokenModel::If => if_statement(ts, pos),
            TokenModel::While => while_statement(ts, pos),
            TokenModel::Struct => struct_declaration(ts, pos),
            _ => match expression(ts, pos) {
                Some((e, next)) => Some(
                    (
                        StatementModel::Expression(e),
                        after_optional(semicolon_at(ts, next), next),
                    ),
                ),
                None => None,
            },
        }
    }
}

/// The statements from `pos` on, up to the end of the tokens.
pub open spec fn program(ts: Seq<TokenModel>, pos: int) -> Option<(Seq<StatementModel>, int)>
    decreases ts.len() - pos,
{
    if pos < 0 || at_end(ts, pos) {
        Some((Seq::<StatementModel>::empty(), pos))
    } else {
        match statement(ts, pos) {
            Some((first, next)) => if pos < next <= ts.len() {
                match program(ts, next) {
                    Some((rest, end)) => Some((seq![first] + rest, end)),
                    None => None,
                }
            } else {
                None
            },
            None => None,
        }
    }
}

/// The statements that a source text holds: those that its tokens make,
/// where they make a program.
pub open spec fn parsed_program(source: Seq<char>) -> Option<Seq<StatementModel>> {
    match program(token_stream(source, 0), 0) {
        Some((statements, end)) => Some(statements),
        None => None,
    }
}

/// Parses a list of tokens, which holds no `EOF` but possibly at its end.
pub struct Parser {
    pub tokens: Vec<Token>,
    /// Index of the next token.
    pub current: usize,
}

impl Parser {
    /// The invariant of the parser: it stands inside its tokens.
    pub open spec fn wf(&self) -> bool {
        self.current <= self.tokens@.len()
    }

    /// Number of tokens that are left.
    pub open spec fn remaining(&self) -> nat {
        (self.tokens@.len() - self.current) as nat
    }

    /// The kinds of the tokens.
    pub open spec fn kinds(&self) -> Seq<TokenModel> {
        kinds(self.tokens@)
    }

    /// Whether `after` is this parser moved on by some tokens, at least by
    /// one where `moved`.
    pub open spec fn advanced_to(&self, after: &Parser, moved: bool) -> bool {
        &&& after.wf()
        &&& after.tokens == self.tokens
        &&& after.current >= self.current
        &&& moved ==> after.current > self.current
    }

    /// Whether `after` is this parser after it has taken the token at
    /// which it stands, where `taken`, and as it is where not.
    pub open spec fn took(&self, after: &Parser, taken: bool) -> bool {
        &&& after.wf()
        &&& after.tokens == self.tokens
        &&& after.current == after_optional(taken, self.current as int)
    }

    pub fn new(tokens: Vec<Token>) -> (parser: Self)
        ensures
            parser.wf(),
            parser.tokens == tokens,
            parser.current == 0,
    {
        Parser { tokens, current: 0 }
    }

    /// The statements of the whole token list, or the first error.
    pub fn parse(&mut self) -> (r: Result<Program, String>)
        requires
            old(self).wf(),
        ensures
            old(self).advanced_to(final(self), false),
            match program(old(self).kinds(), old(self).current as int) {
                Some((statements, end)) => r is Ok && r->Ok_0@ == statements && final(self).current
                    == end,
                None => r is Err,
            },
    {
        let mut statements: Vec<Statement> = Vec::new();
        let ghost ts = self.kinds();
        assert(statement_models(statements@, 0) =~= Seq::<StatementModel>::empty());
        loop
            invariant
                old(self).advanced_to(self, false),
                ts == old(self).kinds(),
                program(ts, old(self).current as int) == match program(ts, self.current as int) {
                    Some((rest, end)) => Some(
                        (statement_models(statements@, statements@.len() as int) + rest, end),
                    ),
                    None => None::<(Seq<StatementModel>, int)>,
                },
            decreases self.remaining(),
        {
            if self.is_at_end() {
                assert(statement_models(statements@, statements@.len() as int) + Seq::<
                    StatementModel,
                >::empty() =~= statement_models(statements@, statements@.len() as int));
                return Ok(Program { statements });
            }
            match self.parse_statement() {
                Ok(one) => {
                    proof {
                        let before = statement_models(statements@, statements@.len() as int);
                        let grown = statements@.push(one);
                        lemma_statement_models(statements@, statements@.len() as int);
                        lemma_statement_models(grown, grown.len() as int);
                        assert(statement_models(grown, grown.len() as int) =~= before.push(one@));
                        match program(ts, self.current as int) {
                            Some((rest, end)) => {
                                assert(before + (seq![one@] + rest) =~= before.push(one@) + rest);
                            },
                            None => {},
                        }
                    }
                    statements.push(one);
                },
                Err(e) => {
                    return Err(e);
                },
            }
        }
    }

    /// One statement.
    pub fn parse_statement(&mut self) -> (r: Result<Statement, String>)
        requires
            old(self).wf(),
        ensures
            old(self).advanced_to(final(self), r is Ok),
            match statement(old(self).kinds(), old(self).current as int) {
                Some((s, end)) => r is Ok && r->Ok_0@ == s && final(self).current == end,
                None => r is Err,
            },
        decreases old(self).remaining(), 5nat,
    {
        if self.is_at_end() {
            return Err("Unexpected end of input".to_owned());
        }
        match &self.tokens[self.current].token_type {
            TokenType::Let => self.parse_let_statement(),
            TokenType::Fn => self.parse_function(),
            TokenType::Return => self.parse_return_statement(),
            TokenType::If => self.parse_if_statement(),
            TokenType::While => self.parse_while_statement(),
            TokenType::Struct => self.parse_struct_declaration(),
            _ => {
                let value = match self.parse_expression() {
                    Ok(e) => e,
                    Err(e) => {
                        return Err(e);
                    },
                };
                self.match_semicolon();
                Ok(Statement::Expression(value))
            },
        }
    }

    /// An optional type after a colon (or, for the result of a function,
    /// after an arrow).
    fn parse_annotation(&mut self, colon: bool) -> (r: Result<Option<Type>, String>)
        requires
            old(self).wf(),
        ensures
            old(self).advanced_to(final(self), false),
            match annotation(old(self).kinds(), old(self).current as int, colon) {
                Some((t, end)) => r is Ok && crate::compiler::ast::optional_type_model(r->Ok_0)
                    == t && final(self).current == end,
                None => r is Err,
            },
    {
        let present = if colon {
            self.match_colon()
        } else {
            self.match_arrow()
        };
        if present {
            match self.parse_type() {
                Ok(t) => Ok(Some(t)),
                Err(e) => Err(e),
            }
        } else {
            Ok(None)
        }
    }

    fn parse_let_statement(&mut self) -> (r: Result<Statement, String>)
        requires
            old(self).wf(),
        ensures
            old(self).advanced_to(final(self), r is Ok),
            match let_statement(old(self).kinds(), old(self).current as int) {
                Some((s, end)) => r is Ok && r->Ok_0@ == s && final(self).current == end,
                None => r is Err,
            },
    {
        if !self.match_let() {
            return Err("Expected 'let'".to_owned());
        }
        let name = match self.consume_identifier() {
            Some(n) => n,
            None => {
                return Err("Expected identifier".to_owned());
            },
        };
        let type_annotation = match self.parse_annotation(true) {
            Ok(t) => t,
            Err(e) => {
                return Err(e);
            },
        };
        if !self.match_assign() {
            return Err("Expected '='".to_owned());
        }
        let initializer = match self.parse_expression() {
            Ok(e) => e,
            Err(e) => {
                return Err(e);
            },
        };
        if !self.match_semicolon() {
            return Err("Expected ';'".to_owned());
        }
        Ok(Statement::Let { name, type_annotation, initializer })
    }

    fn parse_function(&mut self) -> (r: Result<Statement, String>)
        requires
            old(self).wf(),
        ensures
            old(self).advanced_to(final(self), r is Ok),
            match function(old(self).kinds(), old(self).current as int) {
                Some((s, end)) => r is Ok && r->Ok_0@ == s && final(self).current == end,
                None => r is Err,
            },
        decreases old(self).remaining(), 4nat,
    {
        if !self.match_fn() {
            return Err("Expected 'fn'".to_owned());
        }
        let name = match self.consume_identifier() {
            Some(n) => n,
            None => {
                return Err("Expected function name".to_owned());
            },
        };
        if !self.match_left_paren() {
            return Err("Expected '('".to_owned());
        }
        let params = match self.parse_fields(true) {
            Ok(p) => p,
            Err(e) => {
                return Err(e);
            },
        };
        let return_type = match self.parse_annotation(false) {
            Ok(t) => t,
            Err(e) => {
                return Err(e);
            },
        };
        let body = match self.parse_block() {
            Ok(b) => b,
            Err(e) => {
                return Err(e);
            },
        };
        Ok(Statement::Function { name, params, return_type, body })
    }

    /// Names with their types, separated by commas, up to the closing
    /// parenthesis (or brace, for the fields of a struct), which is taken.
    fn parse_fields(&mut self, in_parens: bool) -> (r: Result<Vec<(String, Type)>, String>)
        requires
            old(self).wf(),
        ensures
            old(self).advanced_to(final(self), r is Ok),
            match fields(old(self).kinds(), old(self).current as int, in_parens) {
                Some((list, end)) => r is Ok && typed_name_models(
                    r->Ok_0@,
                    r->Ok_0@.len() as int,
                ) == list && final(self).current == end,
                None => r is Err,
            },
    {
        let mut list: Vec<(String, Type)> = Vec::new();
        let ghost ts = self.kinds();
        assert(typed_name_models(list@, 0) =~= Seq::<(Seq<char>, TypeModel)>::empty());
        loop
            invariant
                old(self).advanced_to(self, false),
                ts == old(self).kinds(),
                fields(ts, old(self).current as int, in_parens) == match fields(
                    ts,
                    self.current as int,
                    in_parens,
                ) {
                    Some((rest, end)) => Some(
                        (typed_name_models(list@, list@.len() as int) + rest, end),
                    ),
                    None => None::<(Seq<(Seq<char>, TypeModel)>, int)>,
                },
            decreases self.remaining(),
        {
            let closed = if in_parens {
                self.match_right_paren()
            } else {
                self.match_right_brace()
            };
            if closed {
                assert(typed_name_models(list@, list@.len() as int) + Seq::<
                    (Seq<char>, TypeModel),
                >::empty() =~= typed_name_models(list@, list@.len() as int));
                return Ok(list);
            }
            let name = match self.consume_identifier() {
                Some(n) => n,
                None => {
                    return Err("Expected name".to_owned());
                },
            };
            if !self.match_colon() {
                return Err("Expected ':'".to_owned());
            }
            let field_type = match self.parse_type() {
                Ok(t) => t,
                Err(e) => {
                    return Err(e);
                },
            };
            self.match_comma();
            proof {
                let before = typed_name_models(list@, list@.len() as int);
                let one = (name, field_type);
                let grown = list@.push(one);
                lemma_typed_name_models(list@, list@.len() as int);
                lemma_typed_name_models(grown, grown.len() as int);
                assert(typed_name_models(grown, grown.len() as int) =~= before.push(
                    (name@, field_type@),
                ));
                match fields(ts, self.current as int, in_parens) {
                    Some((rest, end)) => {
                        assert(before + (seq![(name@, field_type@)] + rest) =~= before.push(
                            (name@, field_type@),
                        ) + rest);
                    },
                    None => {},
                }
            }
            list.push((name, field_type));
        }
    }

    fn parse_return_statement(&mut self) -> (r: Result<Statement, String>)
        requires
            old(self).wf(),
        ensures
            old(self).advanced_to(final(self), r is Ok),
            match return_statement(old(self).kinds(), old(self).current as int) {
                Some((s, end)) => r is Ok && r->Ok_0@ == s && final(self).current == end,
                None => r is Err,
            },
    {
        if !self.match_return() {
            return Err("Expected 'return'".to_owned());
        }
        if self.match_semicolon() {
            return Ok(Statement::Return(None));
        }
        let value = match self.parse_expression() {
            Ok(e) => e,
            Err(e) => {
                return Err(e);
            },
        };
        if !self.match_semicolon() {
            return Err("Expected ';'".to_owned());
        }
        Ok(Statement::Return(Some(value)))
    }

    fn parse_if_statement(&mut self) -> (r: Result<Statement, String>)
        requires
            old(self).wf(),
        ensures
            old(self).advanced_to(final(self), r is Ok),
            match if_statement(old(self).kinds(), old(self).current as int) {
                Some((s, end)) => r is Ok && r->Ok_0@ == s && final(self).current == end,
                None => r is Err,
            },
        decreases old(self).remaining(), 4nat,
    {
        if !self.match_if() {
            return Err("Expected 'if'".to_owned());
        }
        let condition = match self.parse_expression() {
            Ok(e) => e,
            Err(e) => {
                return Err(e);
            },
        };
        let then_branch = match self.parse_block() {
            Ok(b) => b,
            Err(e) => {
                return Err(e);
            },
        };
        let else_branch = if self.match_else() {
            match self.parse_block() {
                Ok(b) => Some(b),
                Err(e) => {
                    return Err(e);
                },
            }
        } else {
            None
        };
        Ok(Statement::If { condition, then_branch, else_branch })
    }

    fn parse_while_statement(&mut self) -> (r: Result<Statement, String>)
        requires
            old(self).wf(),
        ensures
            old(self).advanced_to(final(self), r is Ok),
            match while_statement(old(self).kinds(), old(self).current as int) {
                Some((s, end)) => r is Ok && r->Ok_0@ == s && final(self).current == end,
                None => r is Err,
            },
        decreases old(self).remaining(), 4nat,
    {
        if !self.match_while() {
            return Err("Expected 'while'".to_owned());
        }
        let condition = match self.parse_expression() {
            Ok(e) => e,
            Err(e) => {
                return Err(e);
            },
        };
        let body = match self.parse_block() {
            Ok(b) => b,
            Err(e) => {
                return Err(e);
            },
        };
        Ok(Statement::While { condition, body })
    }

    fn parse_struct_declaration(&mut self) -> (r: Result<Statement, String>)
        requires
            old(self).wf(),
        ensures
            old(self).advanced_to(final(self), r is Ok),
            match struct_declaration(old(self).kinds(), old(self).current as int) {
                Some((s, end)) => r is Ok && r->Ok_0@ == s && final(self).current == end,
                None => r is Err,
            },
    {
        if !self.match_struct() {
            return Err("Expected 'struct'".to_owned());
        }
        let name = match self.consume_identifier() {
            Some(n) => n,
            None => {
                return Err("Expected struct name".to_owned());
            },
        };
        if !self.match_left_brace() {
            return Err("Expected '{'".to_owned());
        }
        match self.parse_fields(false) {
            Ok(fields) => Ok(Statement::Struct { name, fields }),
            Err(e) => Err(e),
        }
    }

    /// Statements between braces.
    fn parse_block(&mut self) -> (r: Result<Vec<Statement>, String>)
        requires
            old(self).wf(),
        ensures
            old(self).advanced_to(final(self), r is Ok),
            match block(old(self).kinds(), old(self).current as int) {
                Some((list, end)) => r is Ok && statement_models(r->Ok_0@, r->Ok_0@.len() as int)
                    == list && final(self).current == end,
                None => r is Err,
            },
        decreases old(self).remaining(), 7nat,
    {
        if !self.match_left_brace() {
            return Err("Expected '{'".to_owned());
        }
        let mut statements: Vec<Statement> = Vec::new();
        let ghost ts = self.kinds();
        let ghost start = self.current as int;
        assert(statement_models(statements@, 0) =~= Seq::<StatementModel>::empty());
        loop
            invariant
                old(self).advanced_to(self, true),
                ts == old(self).kinds(),
                start == old(self).current + 1,
                block(ts, old(self).current as int) == block_rest(ts, start),
                block_rest(ts, start) == match block_rest(ts, self.current as int) {
                    Some((rest, end)) => Some(
                        (statement_models(statements@, statements@.len() as int) + rest, end),
                    ),
                    None => None::<(Seq<StatementModel>, int)>,
                },
            decreases self.remaining(),
        {
            if self.match_right_brace() {
                assert(statement_models(statements@, statements@.len() as int) + Seq::<
                    StatementModel,
                >::empty() =~= statement_models(statements@, statements@.len() as int));
                return Ok(statements);
            }
            match self.parse_statement() {
                Ok(one) => {
                    proof {
                        let before = statement_models(statements@, statements@.len() as int);
                        let grown = statements@.push(one);
                        lemma_statement_models(statements@, statements@.len() as int);
                        lemma_statement_models(grown, grown.len() as int);
                        assert(statement_models(grown, grown.len() as int) =~= before.push(one@));
                        match block_rest(ts, self.current as int) {
                            Some((rest, end)) => {
                                assert(before + (seq![one@] + rest) =~= before.push(one@) + rest);
                            },
                            None => {},
                        }
                    }
                    statements.push(one);
                },
                Err(e) => {
                    return Err(e);
                },
            }
        }
    }

    /// One expression.
    pub fn parse_expression(&mut self) -> (r: Result<Expression, String>)
        requires
            old(self).wf(),
        ensures
            old(self).advanced_to(final(self), r is Ok),
            match expression(old(self).kinds(), old(self).current as int) {
                Some((e, end)) => r is Ok && r->Ok_0@ == e && final(self).current == end,
                None => r is Err,
            },
        decreases old(self).remaining(), 3nat,
    {
        self.parse_binary_expression()
    }

    /// Operands joined by operators, grouped from the left.
    fn parse_binary_expression(&mut self) -> (r: Result<Expression, String>)
        requires
            old(self).wf(),
        ensures
            old(self).advanced_to(final(self), r is Ok),
            match expression(old(self).kinds(), old(self).current as int) {
                Some((e, end)) => r is Ok && r->Ok_0@ == e && final(self).current == end,
                None => r is Err,
            },
        decreases old(self).remaining(), 2nat,
    {
        let ghost ts = self.kinds();
        let mut joined = match self.parse_primary() {
            Ok(e) => e,
            Err(e) => {
                return Err(e);
            },
        };
        loop
            invariant
                old(self).advanced_to(self, true),
                ts == old(self).kinds(),
                expression(ts, old(self).current as int) == binary_rest(
                    ts,
                    self.current as int,
                    joined@,
                ),
            decreases self.remaining(),
        {
            let operator = match self.match_binary_operator() {
                Some(op) => op,
                None => {
                    return Ok(joined);
                },
            };
            let right = match self.parse_primary() {
                Ok(e) => e,
                Err(e) => {
                    return Err(e);
                },
            };
            joined = Expression::Binary {
                left: Box::new(joined),
                operator,
                right: Box::new(right),
            };
        }
    }

    /// A literal, a name, a call, or an expression in parentheses.
    fn parse_primary(&mut self) -> (r: Result<Expression, String>)
        requires
            old(self).wf(),
        ensures
            old(self).advanced_to(final(self), r is Ok),
            match primary(old(self).kinds(), old(self).current as int) {
                Some((e, end)) => r is Ok && r->Ok_0@ == e && final(self).current == end,
                None => r is Err,
            },
        decreases old(self).remaining(), 1nat,
    {
        if self.current >= self.tokens.len() || self.is_at_end() {
            return Err("Expected expression".to_owned());
        }
        match &self.tokens[self.current].token_type {
            TokenType::Integer(n) => {
                let value = *n;
                self.current += 1;
                Ok(Expression::Integer(value))
            },
            TokenType::Float(text) => {
                let literal = text.clone();
                self.current += 1;
                Ok(Expression::Float(literal))
            },
            TokenType::String(text) => {
                let literal = text.clone();
                self.current += 1;
                Ok(Expression::String(literal))
            },
            TokenType::Identifier(text) => {
                let name = text.clone();
                self.current += 1;
                if self.match_left_paren() {
                    self.parse_call(name)
                } else if text_is(&name, "true") {
                    Ok(Expression::Boolean(true))
                } else if text_is(&name, "false") {
                    Ok(Expression::Boolean(false))
                } else {
                    Ok(Expression::Identifier(name))
                }
            },
            TokenType::LeftParen => {
                self.current += 1;
                let inner = match self.parse_expression() {
                    Ok(e) => e,
                    Err(e) => {
                        return Err(e);
                    },
                };
                if !self.match_right_paren() {
                    return Err("Expected ')'".to_owned());
                }
                Ok(inner)
            },
            _ => Err("Expected expression".to_owned()),
        }
    }

    /// The arguments of a call of `name`, whose opening parenthesis has
    /// been taken.
    fn parse_call(&mut self, name: String) -> (r: Result<Expression, String>)
        requires
            old(self).wf(),
        ensures
            old(self).advanced_to(final(self), r is Ok),
            match arguments(old(self).kinds(), old(self).current as int) {
                Some((list, end)) => r is Ok && r->Ok_0@ == (ExpressionModel::Call {
                    function: Box::new(ExpressionModel::Identifier(name@)),
                    arguments: list,
                }) && final(self).current == end,
                None => r is Err,
            },
        decreases old(self).remaining(), 7nat,
    {
        let mut list: Vec<Expression> = Vec::new();
        let ghost ts = self.kinds();
        assert(expression_models(list@, 0) =~= Seq::<ExpressionModel>::empty());
        loop
            invariant
                old(self).advanced_to(self, false),
                ts == old(self).kinds(),
                arguments(ts, old(self).current as int) == match arguments(ts, self.current as int) {
                    Some((rest, end)) => Some(
                        (expression_models(list@, list@.len() as int) + rest, end),
                    ),
                    None => None::<(Seq<ExpressionModel>, int)>,
                },
            decreases self.remaining(),
        {
            if self.match_right_paren() {
                assert(expression_models(list@, list@.len() as int) + Seq::<
                    ExpressionModel,
                >::empty() =~= expression_models(list@, list@.len() as int));
                let ghost callee = name@;
                let ghost given = expression_models(list@, list@.len() as int);
                let function = Expression::Identifier(name);
                assert(function@ == ExpressionModel::Identifier(callee));
                let call = Expression::Call { function: Box::new(function), arguments: list };
                assert(call@ == (ExpressionModel::Call {
                    function: Box::new(ExpressionModel::Identifier(callee)),
                    arguments: given,
                }));
                return Ok(call);
            }
            if self.is_at_end() {
                return Err("Expected ')'".to_owned());
            }
            match self.parse_expression() {
                Ok(argument) => {
                    self.match_comma();
                    proof {
                        let before = expression_models(list@, list@.len() as int);
                        let grown = list@.push(argument);
                        lemma_expression_models(list@, list@.len() as int);
                        lemma_expression_models(grown, grown.len() as int);
                        assert(expression_models(grown, grown.len() as int) =~= before.push(
                            argument@,
                        ));
                        match arguments(ts, self.current as int) {
                            Some((rest, end)) => {
                                assert(before + (seq![argument@] + rest) =~= before.push(argument@)
                                    + rest);
                            },
                            None => {},
                        }
                    }
                    list.push(argument);
                },
                Err(e) => {
                    return Err(e);
                },
            }
        }
    }

    fn parse_type(&mut self) -> (r: Result<Type, String>)
        requires
            old(self).wf(),
        ensures
            old(self).advanced_to(final(self), r is Ok),
            match type_at(old(self).kinds(), old(self).current as int) {
                Some((t, end)) => r is Ok && r->Ok_0@ == t && final(self).current == end,
                None => r is Err,
            },
    {
        match self.consume_identifier() {
            Some(name) => {
                if text_is(&name, "i32") {
                    Ok(Type::Int)
                } else if text_is(&name, "f64") {
                    Ok(Type::Float)
                } else if text_is(&name, "string") {
                    Ok(Type::String)
                } else if text_is(&name, "bool") {
                    Ok(Type::Bool)
                } else {
                    Ok(Type::Custom(name))
                }
            },
            None => Err("Expected type".to_owned()),
        }
    }

    /// Whether no token is left, or the next one is `EOF`.
    pub fn is_at_end(&self) -> (r: bool)
        requires
            self.wf(),
        ensures
            r == at_end(self.kinds(), self.current as int),
    {
        if self.current >= self.tokens.len() {
            true
        } else {
            match &self.tokens[self.current].token_type {
                TokenType::EOF => true,
                _ => false,
            }
        }
    }

    /// Takes the next token where it is an identifier.
    fn consume_identifier(&mut self) -> (r: Option<String>)
        requires
            old(self).wf(),
        ensures
            old(self).took(final(self), r is Some),
            r is Some <==> old(self).current < old(self).tokens@.len() && old(self).kinds()[old(self).current as int] is Identifier,
            r is Some ==> r->0@ == old(self).kinds()[old(self).current as int]->Identifier_0,
    {
        if self.current >= self.tokens.len() {
            return None;
        }
        match &self.tokens[self.current].token_type {
            TokenType::Identifier(text) => {
                let name = text.clone();
                self.current += 1;
                Some(name)
            },
            _ => None,
        }
    }

    /// Takes the next token where `wanted` says so.
    fn take(&mut self, wanted: bool) -> (taken: bool)
        requires
            old(self).wf(),
            wanted ==> old(self).current < old(self).tokens@.len(),
        ensures
            taken == wanted,
            old(self).took(final(self), taken),
    {
        if wanted && self.current < self.tokens.len() {
            self.current += 1;
        }
        wanted
    }

    fn match_let(&mut self) -> (taken: bool)
        requires
            old(self).wf(),
        ensures
            old(self).took(final(self), taken),
            taken == (old(self).current < old(self).tokens@.len() && old(self).kinds()[old(self).current as int] is Let),
    {
        let wanted = self.current < self.tokens.len() && matches!(
            self.tokens[self.current].token_type,
            TokenType::Let
        );
        self.take(wanted)
    }

    fn match_fn(&mut self) -> (taken: bool)
        requires
            old(self).wf(),
        ensures
            old(self).took(final(self), taken),
            taken == (old(self).current < old(self).tokens@.len() && old(self).kinds()[old(self).current as int] is Fn),
    {
        let wanted = self.current < self.tokens.len() && matches!(
            self.tokens[self.current].token_type,
            TokenType::Fn
        );
        self.take(wanted)
    }

    fn match_return(&mut self) -> (taken: bool)
        requires
            old(self).wf(),
        ensures
            old(self).took(final(self), taken),
            taken == (old(self).current < old(self).tokens@.len() && old(self).kinds()[old(self).current as int] is Return),
    {
        let wanted = self.current < self.tokens.len() && matches!(
            self.tokens[self.current].token_type,
            TokenType::Return
        );
        self.take(wanted)
    }

    fn match_if(&mut self) -> (taken: bool)
        requires
            old(self).wf(),
        ensures
            old(self).took(final(self), taken),
            taken == (old(self).current < old(self).tokens@.len() && old(self).kinds()[old(self).current as int] is If),
    {
        let wanted = self.current < self.tokens.len() && matches!(
            self.tokens[self.current].token_type,
            TokenType::If
        );
        self.take(wanted)
    }

    fn match_else(&mut self) -> (taken: bool)
        requires
            old(self).wf(),
        ensures
            old(self).took(final(self), taken),
            taken == (old(self).current < old(self).tokens@.len() && old(self).kinds()[old(self).current as int] is Else),
    {
        let wanted = self.current < self.tokens.len() && matches!(
            self.tokens[self.current].token_type,
            TokenType::Else
        );
        self.take(wanted)
    }

    fn match_while(&mut self) -> (taken: bool)
        requires
            old(self).wf(),
        ensures
            old(self).took(final(self), taken),
            taken == (old(self).current < old(self).tokens@.len() && old(self).kinds()[old(self).current as int] is While),
    {
        let wanted = self.current < self.tokens.len() && matches!(
            self.tokens[self.current].token_type,
            TokenType::While
        );
        self.take(wanted)
    }

    fn match_struct(&mut self) -> (taken: bool)
        requires
            old(self).wf(),
        ensures
            old(self).took(final(self), taken),
            taken == (old(self).current < old(self).tokens@.len() && old(self).kinds()[old(self).current as int] is Struct),
    {
        let wanted = self.current < self.tokens.len() && matches!(
            self.tokens[self.current].token_type,
            TokenType::Struct
        );
        self.take(wanted)
    }

    fn match_colon(&mut self) -> (taken: bool)
        requires
            old(self).wf(),
        ensures
            old(self).took(final(self), taken),
            taken == (old(self).current < old(self).tokens@.len() && old(self).kinds()[old(self).current as int] is Colon),
    {
        let wanted = self.current < self.tokens.len() && matches!(
            self.tokens[self.current].token_type,
            TokenType::Colon
        );
        self.take(wanted)
    }

    fn match_comma(&mut self) -> (taken: bool)
        requires
            old(self).wf(),
        ensures
            old(self).took(final(self), taken),
            taken == (old(self).current < old(self).tokens@.len() && old(self).kinds()[old(self).current as int] is Comma),
    {
        let wanted = self.current < self.tokens.len() && matches!(
            self.tokens[self.current].token_type,
            TokenType::Comma
        );
        self.take(wanted)
    }

    fn match_semicolon(&mut self) -> (taken: bool)
        requires
            old(self).wf(),
        ensures
            old(self).took(final(self), taken),
            taken == (old(self).current < old(self).tokens@.len() && old(self).kinds()[old(self).current as int] is Semicolon),
    {
        let wanted = self.current < self.tokens.len() && matches!(
            self.tokens[self.current].token_type,
            TokenType::Semicolon
        );
        self.take(wanted)
    }

    fn match_assign(&mut self) -> (taken: bool)
        requires
            old(self).wf(),
        ensures
            old(self).took(final(self), taken),
            taken == (old(self).current < old(self).tokens@.len() && old(self).kinds()[old(self).current as int] is Assign),
    {
        let wanted = self.current < self.tokens.len() && matches!(
            self.tokens[self.current].token_type,
            TokenType::Assign
        );
        self.take(wanted)
    }

    fn match_arrow(&mut self) -> (taken: bool)
        requires
            old(self).wf(),
        ensures
            old(self).took(final(self), taken),
            taken == (old(self).current < old(self).tokens@.len() && old(self).kinds()[old(self).current as int] is Arrow),
    {
        let wanted = self.current < self.tokens.len() && matches!(
            self.tokens[self.current].token_type,
            TokenType::Arrow
        );
        self.take(wanted)
    }

    fn match_left_paren(&mut self) -> (taken: bool)
        requires
            old(self).wf(),
        ensures
            old(self).took(final(self), taken),
            taken == (old(self).current < old(self).tokens@.len() && old(self).kinds()[old(self).current as int] is LeftParen),
    {
        let wanted = self.current < self.tokens.len() && matches!(
            self.tokens[self.current].token_type,
            TokenType::LeftParen
        );
        self.take(wanted)
    }

    fn match_right_paren(&mut self) -> (taken: bool)
        requires
            old(self).wf(),
        ensures
            old(self).took(final(self), taken),
            taken == (old(self).current < old(self).tokens@.len() && old(self).kinds()[old(self).current as int] is RightParen),
    {
        let wanted = self.current < self.tokens.len() && matches!(
            self.tokens[self.current].token_type,
            TokenType::RightParen
        );
        self.take(wanted)
    }

    fn match_left_brace(&mut self) -> (taken: bool)
        requires
            old(self).wf(),
        ensures
            old(self).took(final(self), taken),
            taken == (old(self).current < old(self).tokens@.len() && old(self).kinds()[old(self).current as int] is LeftBrace),
    {
        let wanted = self.current < self.tokens.len() && matches!(
            self.tokens[self.current].token_type,
            TokenType::LeftBrace
        );
        self.take(wanted)
    }

    fn match_right_brace(&mut self) -> (taken: bool)
        requires
            old(self).wf(),
        ensures
            old(self).took(final(self), taken),
            taken == (old(self).current < old(self).tokens@.len() && old(self).kinds()[old(self).current as int] is RightBrace),
    {
        let wanted = self.current < self.tokens.len() && matches!(
            self.tokens[self.current].token_type,
            TokenType::RightBrace
        );
        self.take(wanted)
    }

    /// Takes the next token where it is a binary operator.
    fn match_binary_operator(&mut self) -> (r: Option<BinaryOp>)
        requires
            old(self).wf(),
        ensures
            old(self).took(final(self), r is Some),
            r == if old(self).current < old(self).tokens@.len() {
                operator_of(old(self).kinds()[old(self).current as int])
            } else {
                None
            },
    {
        if self.current >= self.tokens.len() {
            return None;
        }
        let operator = match &self.tokens[self.current].token_type {
            TokenType::Plus => BinaryOp::Add,
            TokenType::Minus => BinaryOp::Subtract,
            TokenType::Multiply => BinaryOp::Multiply,
            TokenType::Divide => BinaryOp::Divide,
            TokenType::Equal => BinaryOp::Equal,
            TokenType::NotEqual => BinaryOp::NotEqual,
            TokenType::Greater => BinaryOp::Greater,
            TokenType::Less => BinaryOp::Less,
            TokenType::GreaterEqual => BinaryOp::GreaterEqual,
            TokenType::LessEqual => BinaryOp::LessEqual,
            _ => {
                return None;
            },
        };
        self.current += 1;
        Some(operator)
    }
}

} // verus!
